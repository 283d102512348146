//! The entry-level operations: listing both backends' entries, adding,
//! updating and deleting one entry, and syncing one entry across backends.
//!
//! Every operation is a pure function from document text to document text:
//! the embedding application reads the backend's file, hands its content in
//! (or `None` for a missing file), and writes the returned content back.

use vstd::prelude::*;

use crate::codec::{json_parse, json_text_of, parse_json, render_json};
use crate::convert::{spec_convert_claude_to_opencode, spec_convert_opencode_to_claude};
use crate::errors::ConfigError;
use crate::json::{
    lemma_lookup_first_match, lemma_lookup_no_match, lemma_views_of_pairs, pairs_find,
    pairs_take_out, pairs_upsert, spec_get, spec_lookup, spec_remove, spec_upsert,
    views_of_pairs, Json, JsonSpec,
};
use crate::store::{
    doc_mapping, doc_wf, doc_with_mapping, load_document, mapping_pairs_cloned, opt_str_view,
    doc_set_mapping, spec_load_ok, spec_loaded, text_view, Source,
};

verus! {

/// One entry as reported to the surrounding application: its name, its raw
/// definition pretty-printed, the backend it lives in, and its derived
/// enabled/description metadata.
#[derive(Debug, Clone)]
pub struct MCPItem {
    pub name: String,
    pub config: String,
    pub source: String,
    pub enabled: bool,
    pub description: Option<String>,
}

/// Both backends' entries, as one listing.
#[derive(Debug, Clone)]
pub struct MCPList {
    pub opencode: Vec<MCPItem>,
    pub claude: Vec<MCPItem>,
}

impl Default for MCPList {
    /// An empty listing.
    fn default() -> (r: MCPList)
        ensures
            r.opencode@.len() == 0,
            r.claude@.len() == 0,
    {
        MCPList { opencode: Vec::new(), claude: Vec::new() }
    }
}

/// What a planned two-way synchronization would change, per backend.
#[derive(Debug, Clone)]
pub struct SyncPreview {
    pub opencode: SyncDirectionPreview,
    pub claude: SyncDirectionPreview,
}

/// What a planned synchronization would change in one direction.
#[derive(Debug, Clone)]
pub struct SyncDirectionPreview {
    pub added: Vec<String>,
    pub updated: Vec<String>,
    pub removed: Vec<String>,
}

impl Default for SyncDirectionPreview {
    /// A preview with no planned changes.
    fn default() -> (r: SyncDirectionPreview)
        ensures
            r.added@.len() == 0,
            r.updated@.len() == 0,
            r.removed@.len() == 0,
    {
        SyncDirectionPreview { added: Vec::new(), updated: Vec::new(), removed: Vec::new() }
    }
}

/// A definition's enabled flag: its `enabled` field where that is a boolean,
/// `true` otherwise.
pub open spec fn spec_enabled_of(def: JsonSpec) -> bool {
    match spec_get(def, "enabled"@) {
        Some(JsonSpec::Bool(b)) => b,
        _ => true,
    }
}

/// A definition's description: its `description` field where that is a
/// string, nothing otherwise.
pub open spec fn spec_description_of(def: JsonSpec) -> Option<Seq<char>> {
    match spec_get(def, "description"@) {
        Some(JsonSpec::Str(s)) => Some(s),
        _ => None,
    }
}

/// How one reported item relates to the mapping pair it was read from.
/// Backend B has no enabled or description concept: its items always report
/// `enabled` and no description.
pub open spec fn item_ok(source: Source, it: MCPItem, name: Seq<char>, def: JsonSpec) -> bool {
    &&& it.name@ == name
    &&& it.config@ == json_text_of(def)
    &&& it.source@ == source.spec_str()
    &&& it.enabled == match source {
        Source::OpenCode => spec_enabled_of(def),
        Source::Claude => true,
    }
    &&& match source {
        Source::OpenCode => match spec_description_of(def) {
            Some(d) => it.description is Some && it.description->0@ == d,
            None => it.description is None,
        },
        Source::Claude => it.description is None,
    }
}

/// The definition's enabled flag, as reported for Backend A entries.
fn enabled_of(def: &Json) -> (r: bool)
    ensures
        r == spec_enabled_of(def@),
{
    match def.get("enabled") {
        Some(v) => match v.as_bool() {
            Some(b) => b,
            None => true,
        },
        None => true,
    }
}

/// The definition's description, as reported for Backend A entries.
fn description_of(def: &Json) -> (r: Option<String>)
    ensures
        match spec_description_of(def@) {
            Some(d) => r is Some && r->0@ == d,
            None => r is None,
        },
{
    match def.get("description") {
        Some(v) => match v.as_str_node() {
            Some(s) => Some(s.clone()),
            None => None,
        },
        None => None,
    }
}

/// The items of one backend's document, one per mapping pair, in order.
fn items_for(doc: &Json, source: Source) -> (r: Vec<MCPItem>)
    requires
        doc_wf(doc@, source.mapping_key()),
    ensures
        ({
            let m = doc_mapping(doc@, source.mapping_key());
            &&& r@.len() == m.len()
            &&& forall|i: int| 0 <= i < m.len() ==> item_ok(source, #[trigger] r@[i], m[i].0, m[i].1)
        }),
{
    let ghost m = doc_mapping(doc@, source.mapping_key());
    match doc.get(source.mapping_key_str()) {
        Some(mv) => match mv {
            Json::Obj(o) => {
                proof {
                    lemma_views_of_pairs(o@);
                }
                let mut r: Vec<MCPItem> = Vec::new();
                let mut i: usize = 0;
                while i < o.len()
                    invariant
                        0 <= i <= o@.len(),
                        m == views_of_pairs(o@),
                        m.len() == o@.len(),
                        forall|j: int| 0 <= j < o@.len() ==> m[j] == (o@[j].0@, o@[j].1@),
                        r@.len() == i,
                        forall|j: int| 0 <= j < i ==> item_ok(source, #[trigger] r@[j], m[j].0, m[j].1),
                    decreases o.len() - i,
                {
                    let name = o[i].0.clone();
                    let config = render_json(&o[i].1);
                    let (enabled, description) = match source {
                        Source::OpenCode => (enabled_of(&o[i].1), description_of(&o[i].1)),
                        Source::Claude => (true, None),
                    };
                    let it = MCPItem {
                        name,
                        config,
                        source: source.as_str().to_owned(),
                        enabled,
                        description,
                    };
                    r.push(it);
                    i += 1;
                }
                r
            },
            _ => vstd::pervasive::unreached(),
        },
        None => Vec::new(),
    }
}

/// Loads both stores and reports every entry of each, annotated with its
/// derived metadata. A missing document contributes no entries; a document
/// of either backend that fails to load fails the whole listing.
pub fn get_mcp_list(opencode_text: Option<&str>, claude_text: Option<&str>) -> (r: Result<
    MCPList,
    ConfigError,
>)
    ensures
        r is Ok <==> spec_load_ok(text_view(opencode_text), "mcp"@) && spec_load_ok(
            text_view(claude_text),
            "mcpServers"@,
        ),
        r is Ok ==> ({
            let oc = doc_mapping(spec_loaded(text_view(opencode_text), "mcp"@), "mcp"@);
            let cl = doc_mapping(spec_loaded(text_view(claude_text), "mcpServers"@), "mcpServers"@);
            &&& r->Ok_0.opencode@.len() == oc.len()
            &&& forall|i: int| 0 <= i < oc.len() ==> item_ok(
                Source::OpenCode,
                #[trigger] r->Ok_0.opencode@[i],
                oc[i].0,
                oc[i].1,
            )
            &&& r->Ok_0.claude@.len() == cl.len()
            &&& forall|i: int| 0 <= i < cl.len() ==> item_ok(
                Source::Claude,
                #[trigger] r->Ok_0.claude@[i],
                cl[i].0,
                cl[i].1,
            )
        }),
        r is Err ==> r->Err_0 is ParseError,
{
    let oc_doc = match load_document(opencode_text, Source::OpenCode) {
        Ok(d) => d,
        Err(e) => {
            return Err(e);
        },
    };
    let cl_doc = match load_document(claude_text, Source::Claude) {
        Ok(d) => d,
        Err(e) => {
            return Err(e);
        },
    };
    let opencode = items_for(&oc_doc, Source::OpenCode);
    let claude = items_for(&cl_doc, Source::Claude);
    Ok(MCPList { opencode, claude })
}

/// A new Backend A definition gains `enabled = true` where it has no
/// `enabled` field, and the caller's description where one is given; Backend
/// B definitions and non-object definitions are stored as they stand.
pub open spec fn spec_prepared(
    config: JsonSpec,
    source: Source,
    desc: Option<Seq<char>>,
) -> JsonSpec {
    match source {
        Source::Claude => config,
        Source::OpenCode => match config {
            JsonSpec::Obj(pairs) => {
                let withen = if spec_lookup(pairs, "enabled"@) is Some {
                    pairs
                } else {
                    pairs.push(("enabled"@, JsonSpec::Bool(true)))
                };
                JsonSpec::Obj(
                    match desc {
                        Some(d) => spec_upsert(withen, "description"@, JsonSpec::Str(d)),
                        None => withen,
                    },
                )
            },
            _ => config,
        },
    }
}

/// Prepares a new definition as [`spec_prepared`] says.
fn prepare_config(config: Json, source: Source, description: Option<String>) -> (r: Json)
    ensures
        r@ == spec_prepared(config@, source, opt_str_view(description)),
{
    match source {
        Source::Claude => config,
        Source::OpenCode => match config {
            Json::Obj(mut pairs) => {
                let ghost p0 = views_of_pairs(pairs@);
                let idx = pairs_find(&pairs, "enabled");
                proof {
                    lemma_views_of_pairs(pairs@);
                    match idx {
                        Some(i) => lemma_lookup_first_match(p0, "enabled"@, i as int),
                        None => lemma_lookup_no_match(p0, "enabled"@),
                    }
                }
                if idx.is_none() {
                    let ghost p1 = pairs@;
                    let en = ("enabled".to_owned(), Json::Bool(true));
                    pairs.push(en);
                    proof {
                        lemma_views_of_pairs(p1);
                        lemma_views_of_pairs(pairs@);
                        assert(views_of_pairs(pairs@) =~= p0.push(
                            ("enabled"@, JsonSpec::Bool(true)),
                        ));
                    }
                }
                match description {
                    Some(d) => {
                        pairs_upsert(&mut pairs, "description".to_owned(), Json::Str(d));
                    },
                    None => {},
                }
                Json::Obj(pairs)
            },
            other => other,
        },
    }
}

/// What a store's document becomes when one entry is put under `name`.
pub open spec fn spec_doc_upserted(
    doc: JsonSpec,
    mkey: Seq<char>,
    name: Seq<char>,
    def: JsonSpec,
) -> JsonSpec {
    doc_with_mapping(doc, mkey, spec_upsert(doc_mapping(doc, mkey), name, def))
}

/// Adds one entry: the definition text must be valid JSON, and is stored
/// under `name` — overwriting any entry of that name — in the backend's
/// document, whose other fields are preserved. Returns the document text to
/// write back.
pub fn add_mcp(
    name: String,
    config_json: &str,
    source: Source,
    description: Option<String>,
    doc_text: Option<&str>,
) -> (r: Result<String, ConfigError>)
    ensures
        r is Ok <==> json_parse(config_json@) is Some && spec_load_ok(
            text_view(doc_text),
            source.mapping_key(),
        ),
        r is Ok ==> r->Ok_0@ == json_text_of(
            spec_doc_upserted(
                spec_loaded(text_view(doc_text), source.mapping_key()),
                source.mapping_key(),
                name@,
                spec_prepared(json_parse(config_json@)->0, source, opt_str_view(description)),
            ),
        ),
        r is Err ==> r->Err_0 is ParseError,
{
    let config_value = match parse_json(config_json) {
        Ok(v) => v,
        Err(e) => {
            return Err(ConfigError::ParseError(e));
        },
    };
    let doc = match load_document(doc_text, source) {
        Ok(d) => d,
        Err(e) => {
            return Err(e);
        },
    };
    let final_config = prepare_config(config_value, source, description);
    let mut m = mapping_pairs_cloned(&doc, source);
    pairs_upsert(&mut m, name, final_config);
    let new_doc = doc_set_mapping(doc, source, m);
    Ok(render_json(&new_doc))
}

/// An updated Backend A object definition gains the caller's description
/// where one is given; everything else is stored as it stands.
pub open spec fn spec_updated(
    config: JsonSpec,
    source: Source,
    desc: Option<Seq<char>>,
) -> JsonSpec {
    match source {
        Source::Claude => config,
        Source::OpenCode => match config {
            JsonSpec::Obj(pairs) => match desc {
                Some(d) => JsonSpec::Obj(spec_upsert(pairs, "description"@, JsonSpec::Str(d))),
                None => config,
            },
            _ => config,
        },
    }
}

/// Updates one existing entry: as [`add_mcp`], except that a `name` absent
/// from the backend's mapping is refused with a not-found error, and no
/// `enabled` field is fabricated.
pub fn update_mcp(
    name: String,
    config_json: &str,
    source: Source,
    description: Option<String>,
    doc_text: Option<&str>,
) -> (r: Result<String, ConfigError>)
    ensures
        r is Ok <==> json_parse(config_json@) is Some && spec_load_ok(
            text_view(doc_text),
            source.mapping_key(),
        ) && spec_lookup(
            doc_mapping(spec_loaded(text_view(doc_text), source.mapping_key()), source.mapping_key()),
            name@,
        ) is Some,
        r is Ok ==> r->Ok_0@ == json_text_of(
            spec_doc_upserted(
                spec_loaded(text_view(doc_text), source.mapping_key()),
                source.mapping_key(),
                name@,
                spec_updated(json_parse(config_json@)->0, source, opt_str_view(description)),
            ),
        ),
        json_parse(config_json@) is None ==> r is Err && r->Err_0 is ParseError,
        json_parse(config_json@) is Some && !spec_load_ok(
            text_view(doc_text),
            source.mapping_key(),
        ) ==> r is Err && r->Err_0 is ParseError,
        json_parse(config_json@) is Some && spec_load_ok(text_view(doc_text), source.mapping_key())
            && spec_lookup(
            doc_mapping(spec_loaded(text_view(doc_text), source.mapping_key()), source.mapping_key()),
            name@,
        ) is None ==> r is Err && r->Err_0 == ConfigError::FileNotFound(name),
{
    let config_value = match parse_json(config_json) {
        Ok(v) => v,
        Err(e) => {
            return Err(ConfigError::ParseError(e));
        },
    };
    let doc = match load_document(doc_text, source) {
        Ok(d) => d,
        Err(e) => {
            return Err(e);
        },
    };
    let mut m = mapping_pairs_cloned(&doc, source);
    let ghost m0 = views_of_pairs(m@);
    let idx = pairs_find(&m, name.as_str());
    proof {
        lemma_views_of_pairs(m@);
        match idx {
            Some(i) => lemma_lookup_first_match(m0, name@, i as int),
            None => lemma_lookup_no_match(m0, name@),
        }
    }
    if idx.is_none() {
        return Err(ConfigError::FileNotFound(name));
    }
    let final_config = match source {
        Source::Claude => config_value,
        Source::OpenCode => match config_value {
            Json::Obj(mut pairs) => match description {
                Some(d) => {
                    pairs_upsert(&mut pairs, "description".to_owned(), Json::Str(d));
                    Json::Obj(pairs)
                },
                None => Json::Obj(pairs),
            },
            other => other,
        },
    };
    pairs_upsert(&mut m, name, final_config);
    let new_doc = doc_set_mapping(doc, source, m);
    Ok(render_json(&new_doc))
}

/// Deletes one entry by name; a `name` absent from the backend's mapping is
/// refused with a not-found error. Returns the document text to write back.
pub fn delete_mcp(name: &str, source: Source, doc_text: Option<&str>) -> (r: Result<
    String,
    ConfigError,
>)
    ensures
        r is Ok <==> spec_load_ok(text_view(doc_text), source.mapping_key()) && spec_lookup(
            doc_mapping(spec_loaded(text_view(doc_text), source.mapping_key()), source.mapping_key()),
            name@,
        ) is Some,
        r is Ok ==> r->Ok_0@ == json_text_of(
            doc_with_mapping(
                spec_loaded(text_view(doc_text), source.mapping_key()),
                source.mapping_key(),
                spec_remove(
                    doc_mapping(
                        spec_loaded(text_view(doc_text), source.mapping_key()),
                        source.mapping_key(),
                    ),
                    name@,
                ),
            ),
        ),
        !spec_load_ok(text_view(doc_text), source.mapping_key()) ==> r is Err
            && r->Err_0 is ParseError,
        spec_load_ok(text_view(doc_text), source.mapping_key()) && spec_lookup(
            doc_mapping(spec_loaded(text_view(doc_text), source.mapping_key()), source.mapping_key()),
            name@,
        ) is None ==> r is Err && r->Err_0 is FileNotFound
            && r->Err_0->FileNotFound_0@ == name@,
{
    let doc = match load_document(doc_text, source) {
        Ok(d) => d,
        Err(e) => {
            return Err(e);
        },
    };
    let mut m = mapping_pairs_cloned(&doc, source);
    let found = pairs_take_out(&mut m, name);
    if !found {
        return Err(ConfigError::FileNotFound(name.to_owned()));
    }
    let new_doc = doc_set_mapping(doc, source, m);
    Ok(render_json(&new_doc))
}

/// What syncing stores: the definition itself between same backends, the
/// matching conversion across backends.
pub open spec fn spec_synced(config: JsonSpec, from: Source, to: Source) -> JsonSpec {
    if from == to {
        config
    } else {
        match to {
            Source::OpenCode => spec_convert_claude_to_opencode(config),
            Source::Claude => spec_convert_opencode_to_claude(config),
        }
    }
}

/// Writes one entry from one backend into another: the definition is
/// converted where the backends differ, then stored under `name` in the
/// destination's document — a full replace of any entry of that name. The
/// source store is never touched. Returns the destination document text.
pub fn sync_mcp(
    name: String,
    from_source: Source,
    to_source: Source,
    config_json: &str,
    dest_text: Option<&str>,
) -> (r: Result<String, ConfigError>)
    ensures
        r is Ok <==> json_parse(config_json@) is Some && spec_load_ok(
            text_view(dest_text),
            to_source.mapping_key(),
        ),
        r is Ok ==> r->Ok_0@ == json_text_of(
            spec_doc_upserted(
                spec_loaded(text_view(dest_text), to_source.mapping_key()),
                to_source.mapping_key(),
                name@,
                spec_synced(json_parse(config_json@)->0, from_source, to_source),
            ),
        ),
        r is Err ==> r->Err_0 is ParseError,
{
    let config_value = match parse_json(config_json) {
        Ok(v) => v,
        Err(e) => {
            return Err(ConfigError::ParseError(e));
        },
    };
    let converted = if from_source == to_source {
        config_value
    } else {
        match to_source {
            Source::OpenCode => crate::convert::convert_claude_to_opencode(&config_value),
            Source::Claude => crate::convert::convert_opencode_to_claude(&config_value),
        }
    };
    let doc = match load_document(dest_text, to_source) {
        Ok(d) => d,
        Err(e) => {
            return Err(e);
        },
    };
    let mut m = mapping_pairs_cloned(&doc, to_source);
    pairs_upsert(&mut m, name, converted);
    let new_doc = doc_set_mapping(doc, to_source, m);
    Ok(render_json(&new_doc))
}

} // verus!
