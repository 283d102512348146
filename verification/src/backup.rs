//! The per-backend snapshot store: one overwritten snapshot file per backend,
//! holding that backend's whole name-to-definition mapping beside the backend
//! id it was taken from.
//!
//! Restoring trusts the snapshot's own recorded id, not the caller's: a
//! snapshot is only ever decoded back into the backend it was taken from.
//! Restores merge into the live store — entries present live but absent from
//! the snapshot survive untouched.

use vstd::prelude::*;
use vstd::string::StringExecFns;

use crate::codec::{json_parse, json_text_of, parse_json, render_json};
use crate::errors::ConfigError;
use crate::json::{
    lemma_lookup_first_match, lemma_lookup_no_match, lemma_views_of_pairs, pairs_find,
    pairs_upsert, spec_get, spec_lookup, spec_upsert, str_eq, views_of_pairs, Json, JsonSpec,
};
use crate::num::{dec_str, u64_to_string};
use crate::store::{
    clone_pairs, doc_mapping, doc_set_mapping, doc_with_mapping, load_document,
    mapping_pairs_cloned, spec_load_ok, spec_loaded, text_view, Source,
};

verus! {

/// What one snapshot looks like from the outside: where it sits, which
/// backend it was taken from, and how many entries it holds.
#[derive(Debug, Clone)]
pub struct MCPBackupInfo {
    pub filename: String,
    pub timestamp: String,
    pub source: String,
    pub mcp_count: usize,
    pub path: String,
    pub created_at: String,
}

/// What a restore produced: which backend's document to write back, its new
/// text, and a human-readable summary.
#[derive(Debug, Clone)]
pub struct RestoreOutcome {
    pub target: Source,
    pub new_text: String,
    pub restored: usize,
    pub summary: String,
}

/// The snapshot document for a backend and its mapping: the recorded backend
/// id under `source`, the entries under `mcps`.
pub open spec fn spec_snapshot(source: Source, m: Seq<(Seq<char>, JsonSpec)>) -> JsonSpec {
    JsonSpec::Obj(
        seq![
            ("source"@, JsonSpec::Str(source.spec_str())),
            ("mcps"@, JsonSpec::Obj(m)),
        ],
    )
}

/// The snapshot file's fixed, backend-derived name.
pub open spec fn spec_snapshot_filename(source: Source) -> Seq<char> {
    match source {
        Source::OpenCode => "opencode_mcps.json"@,
        Source::Claude => "claude_mcps.json"@,
    }
}

/// The snapshot file's fixed, backend-derived name.
pub fn snapshot_filename(source: Source) -> (r: String)
    ensures
        r@ == spec_snapshot_filename(source),
{
    match source {
        Source::OpenCode => "opencode_mcps.json".to_owned(),
        Source::Claude => "claude_mcps.json".to_owned(),
    }
}

/// Whether a parsed snapshot holds its entries object.
pub open spec fn snap_mcps_ok(snap: JsonSpec) -> bool {
    match spec_get(snap, "mcps"@) {
        Some(m) => m is Obj,
        _ => false,
    }
}

/// The entries a parsed snapshot holds.
pub open spec fn snap_mcps(snap: JsonSpec) -> Seq<(Seq<char>, JsonSpec)> {
    spec_get(snap, "mcps"@)->0->Obj_0
}

/// The backend id a snapshot records; empty where it records none.
pub open spec fn snap_source_id(snap: JsonSpec) -> Seq<char> {
    match spec_get(snap, "source"@) {
        Some(JsonSpec::Str(s)) => s,
        _ => Seq::empty(),
    }
}

/// The backend a snapshot was taken from, by its own recorded id; `None` for
/// an unrecognized id.
pub open spec fn snap_target(snap: JsonSpec) -> Option<Source> {
    if snap_source_id(snap) == "opencode"@ {
        Some(Source::OpenCode)
    } else if snap_source_id(snap) == "claudecode"@ {
        Some(Source::Claude)
    } else {
        None
    }
}

/// The backend's display name, as the summaries spell it.
pub open spec fn spec_display_name(source: Source) -> Seq<char> {
    match source {
        Source::OpenCode => "OpenCode"@,
        Source::Claude => "ClaudeCode"@,
    }
}

/// The backend's display name, as the summaries spell it.
fn display_name(source: Source) -> (r: &'static str)
    ensures
        r@ == spec_display_name(source),
{
    match source {
        Source::OpenCode => "OpenCode",
        Source::Claude => "ClaudeCode",
    }
}

/// Takes one backend's snapshot: the backend's current mapping, wrapped with
/// its id, rendered as the snapshot file's new content. Returns that content
/// and the snapshot's metadata; the caller writes the file at `path` and
/// supplies the clock-derived `timestamp` and `created_at`.
pub fn backup_mcp_by_source(
    source: Source,
    doc_text: Option<&str>,
    path: String,
    timestamp: String,
    created_at: String,
) -> (r: Result<(String, MCPBackupInfo), ConfigError>)
    ensures
        r is Ok <==> spec_load_ok(text_view(doc_text), source.mapping_key()),
        r is Ok ==> ({
            let m = doc_mapping(
                spec_loaded(text_view(doc_text), source.mapping_key()),
                source.mapping_key(),
            );
            &&& r->Ok_0.0@ == json_text_of(spec_snapshot(source, m))
            &&& r->Ok_0.1.filename@ == spec_snapshot_filename(source)
            &&& r->Ok_0.1.timestamp@ == timestamp@
            &&& r->Ok_0.1.source@ == source.spec_str()
            &&& r->Ok_0.1.mcp_count == m.len()
            &&& r->Ok_0.1.path@ == path@
            &&& r->Ok_0.1.created_at@ == created_at@
        }),
        r is Err ==> r->Err_0 is ParseError,
{
    let doc = match load_document(doc_text, source) {
        Ok(d) => d,
        Err(e) => {
            return Err(e);
        },
    };
    let m = mapping_pairs_cloned(&doc, source);
    let mcp_count = m.len();
    proof {
        lemma_views_of_pairs(m@);
    }

    let mut sp: Vec<(String, Json)> = Vec::new();
    let p0 = ("source".to_owned(), Json::Str(source.as_str().to_owned()));
    sp.push(p0);
    let p1 = ("mcps".to_owned(), Json::Obj(m));
    sp.push(p1);
    let ghost spv = sp@;
    let snap = Json::Obj(sp);
    proof {
        let mspec = doc_mapping(
            spec_loaded(text_view(doc_text), source.mapping_key()),
            source.mapping_key(),
        );
        lemma_views_of_pairs(spv);
        assert(spv.len() == 2);
        assert(views_of_pairs(spv)[0] == ("source"@, JsonSpec::Str(source.spec_str())));
        assert(views_of_pairs(spv)[1] == ("mcps"@, JsonSpec::Obj(mspec)));
        assert(views_of_pairs(spv) =~= seq![
            ("source"@, JsonSpec::Str(source.spec_str())),
            ("mcps"@, JsonSpec::Obj(mspec)),
        ]);
        assert(snap@ == spec_snapshot(source, mspec));
    }
    let content = render_json(&snap);

    let info = MCPBackupInfo {
        filename: snapshot_filename(source),
        timestamp,
        source: source.as_str().to_owned(),
        mcp_count,
        path,
        created_at,
    };
    Ok((content, info))
}

/// Takes Backend A's snapshot; see [`backup_mcp_by_source`].
pub fn backup_opencode_mcps(
    doc_text: Option<&str>,
    path: String,
    timestamp: String,
    created_at: String,
) -> (r: Result<(String, MCPBackupInfo), ConfigError>)
    ensures
        r is Ok <==> spec_load_ok(text_view(doc_text), "mcp"@),
        r is Ok ==> ({
            let m = doc_mapping(spec_loaded(text_view(doc_text), "mcp"@), "mcp"@);
            &&& r->Ok_0.0@ == json_text_of(spec_snapshot(Source::OpenCode, m))
            &&& r->Ok_0.1.filename@ == spec_snapshot_filename(Source::OpenCode)
            &&& r->Ok_0.1.timestamp@ == timestamp@
            &&& r->Ok_0.1.source@ == Source::OpenCode.spec_str()
            &&& r->Ok_0.1.mcp_count == m.len()
            &&& r->Ok_0.1.path@ == path@
            &&& r->Ok_0.1.created_at@ == created_at@
        }),
        r is Err ==> r->Err_0 is ParseError,
{
    backup_mcp_by_source(Source::OpenCode, doc_text, path, timestamp, created_at)
}

/// Takes Backend B's snapshot; see [`backup_mcp_by_source`].
pub fn backup_claude_mcps(
    doc_text: Option<&str>,
    path: String,
    timestamp: String,
    created_at: String,
) -> (r: Result<(String, MCPBackupInfo), ConfigError>)
    ensures
        r is Ok <==> spec_load_ok(text_view(doc_text), "mcpServers"@),
        r is Ok ==> ({
            let m = doc_mapping(spec_loaded(text_view(doc_text), "mcpServers"@), "mcpServers"@);
            &&& r->Ok_0.0@ == json_text_of(spec_snapshot(Source::Claude, m))
            &&& r->Ok_0.1.filename@ == spec_snapshot_filename(Source::Claude)
            &&& r->Ok_0.1.timestamp@ == timestamp@
            &&& r->Ok_0.1.source@ == Source::Claude.spec_str()
            &&& r->Ok_0.1.mcp_count == m.len()
            &&& r->Ok_0.1.path@ == path@
            &&& r->Ok_0.1.created_at@ == created_at@
        }),
        r is Err ==> r->Err_0 is ParseError,
{
    backup_mcp_by_source(Source::Claude, doc_text, path, timestamp, created_at)
}

/// How many entries a parsed snapshot reports: the size of its entries
/// object, or zero where that object is missing or malformed.
pub open spec fn spec_backup_count(snap: JsonSpec) -> nat {
    if snap_mcps_ok(snap) {
        snap_mcps(snap).len()
    } else {
        0
    }
}

/// Inspects a snapshot without changing anything: no snapshot text means no
/// snapshot; otherwise the file's recorded entry count and the caller's
/// file-derived `created_at` are reported. The `timestamp` field of an
/// inspected snapshot is empty.
pub fn get_mcp_backup(
    source: Source,
    snapshot_text: Option<&str>,
    path: String,
    created_at: String,
) -> (r: Result<Option<MCPBackupInfo>, ConfigError>)
    ensures
        snapshot_text is None ==> r is Ok && r->Ok_0 is None,
        snapshot_text is Some ==> ((r is Ok <==> json_parse(snapshot_text->0@) is Some) && (
        r is Ok ==> ({
            let snap = json_parse(snapshot_text->0@)->0;
            &&& r->Ok_0 is Some
            &&& r->Ok_0->0.filename@ == spec_snapshot_filename(source)
            &&& r->Ok_0->0.timestamp@ == Seq::<char>::empty()
            &&& r->Ok_0->0.source@ == source.spec_str()
            &&& r->Ok_0->0.mcp_count == spec_backup_count(snap)
            &&& r->Ok_0->0.path@ == path@
            &&& r->Ok_0->0.created_at@ == created_at@
        }))),
        r is Err ==> r->Err_0 is ParseError,
{
    let t = match snapshot_text {
        None => {
            return Ok(None);
        },
        Some(t) => t,
    };
    let snap = match parse_json(t) {
        Ok(v) => v,
        Err(e) => {
            return Err(ConfigError::ParseError(e));
        },
    };
    let mcp_count = match snap.get("mcps") {
        Some(m) => match m {
            Json::Obj(o) => {
                proof {
                    lemma_views_of_pairs(o@);
                }
                o.len()
            },
            _ => 0,
        },
        None => 0,
    };
    Ok(
        Some(
            MCPBackupInfo {
                filename: snapshot_filename(source),
                timestamp: String::new(),
                source: source.as_str().to_owned(),
                mcp_count,
                path,
                created_at,
            },
        ),
    )
}

/// Hands a snapshot file's raw text through for display; a missing snapshot
/// is a not-found failure naming the backend.
pub fn read_backup_content(source: Source, snapshot_text: Option<String>) -> (r: Result<
    String,
    ConfigError,
>)
    ensures
        r is Ok <==> snapshot_text is Some,
        r is Ok ==> r->Ok_0@ == snapshot_text->0@,
        r is Err ==> r->Err_0 is FileNotFound && r->Err_0->FileNotFound_0@ == source.spec_str(),
{
    match snapshot_text {
        Some(t) => Ok(t),
        None => Err(ConfigError::FileNotFound(source.as_str().to_owned())),
    }
}

/// Every snapshot pair put into the live mapping, first to last.
pub open spec fn spec_upsert_all(
    live: Seq<(Seq<char>, JsonSpec)>,
    snap: Seq<(Seq<char>, JsonSpec)>,
) -> Seq<(Seq<char>, JsonSpec)>
    decreases snap.len(),
{
    if snap.len() == 0 {
        live
    } else {
        spec_upsert_all(spec_upsert(live, snap[0].0, snap[0].1), snap.drop_first())
    }
}

/// Puts every snapshot pair into the live mapping, first to last.
fn apply_all(live: &mut Vec<(String, Json)>, snap: &Vec<(String, Json)>)
    ensures
        views_of_pairs(final(live)@) == spec_upsert_all(
            views_of_pairs(old(live)@),
            views_of_pairs(snap@),
        ),
{
    let ghost s = views_of_pairs(snap@);
    proof {
        lemma_views_of_pairs(snap@);
        assert(s.skip(0) =~= s);
    }
    let mut i: usize = 0;
    while i < snap.len()
        invariant
            0 <= i <= snap@.len(),
            s == views_of_pairs(snap@),
            s.len() == snap@.len(),
            forall|j: int| 0 <= j < snap@.len() ==> s[j] == (snap@[j].0@, snap@[j].1@),
            spec_upsert_all(views_of_pairs(old(live)@), s) == spec_upsert_all(
                views_of_pairs(live@),
                s.skip(i as int),
            ),
        decreases snap.len() - i,
    {
        let k = snap[i].0.clone();
        let v = snap[i].1.deep_clone();
        pairs_upsert(live, k, v);
        proof {
            assert(s.skip(i as int).drop_first() =~= s.skip(i as int + 1));
            assert(s.skip(i as int)[0] == s[i as int]);
        }
        i += 1;
    }
    proof {
        assert(s.skip(snap@.len() as int) =~= Seq::<(Seq<char>, JsonSpec)>::empty());
    }
}

/// Restores every entry of a backend's snapshot into that backend's live
/// store — the backend the snapshot itself records, not the one the caller
/// names, which only picks the snapshot file. The merge keeps live entries
/// absent from the snapshot. Returns the target, its new document text, the
/// count restored and a summary.
pub fn restore_mcp_backup(
    source: Source,
    snapshot_text: Option<&str>,
    opencode_text: Option<&str>,
    claude_text: Option<&str>,
) -> (r: Result<RestoreOutcome, ConfigError>)
    ensures
        snapshot_text is None ==> r is Err && r->Err_0 is FileNotFound
            && r->Err_0->FileNotFound_0@ == source.spec_str(),
        snapshot_text is Some && json_parse(snapshot_text->0@) is None ==> r is Err
            && r->Err_0 is ParseError,
        snapshot_text is Some && json_parse(snapshot_text->0@) is Some ==> ({
            let snap = json_parse(snapshot_text->0@)->0;
            &&& !snap_mcps_ok(snap) ==> r is Err && r->Err_0 is ParseError
            &&& snap_mcps_ok(snap) && snap_target(snap) is None ==> r is Err
                && r->Err_0 is ParseError
            &&& snap_mcps_ok(snap) && snap_target(snap) is Some ==> ({
                let target = snap_target(snap)->0;
                let ttext = match target {
                    Source::OpenCode => text_view(opencode_text),
                    Source::Claude => text_view(claude_text),
                };
                &&& (r is Ok <==> spec_load_ok(ttext, target.mapping_key()))
                &&& r is Err ==> r->Err_0 is ParseError
                &&& r is Ok ==> ({
                    let live = spec_loaded(ttext, target.mapping_key());
                    &&& r->Ok_0.target == target
                    &&& r->Ok_0.new_text@ == json_text_of(
                        doc_with_mapping(
                            live,
                            target.mapping_key(),
                            spec_upsert_all(
                                doc_mapping(live, target.mapping_key()),
                                snap_mcps(snap),
                            ),
                        ),
                    )
                    &&& r->Ok_0.restored == snap_mcps(snap).len()
                    &&& r->Ok_0.summary@ == "Successfully restored "@ + dec_str(
                        snap_mcps(snap).len(),
                    ) + " MCPs to "@ + spec_display_name(target)
                })
            })
        }),
{
    let t = match snapshot_text {
        None => {
            return Err(ConfigError::FileNotFound(source.as_str().to_owned()));
        },
        Some(t) => t,
    };
    let snap = match parse_json(t) {
        Ok(v) => v,
        Err(e) => {
            return Err(ConfigError::ParseError(e));
        },
    };
    let mcps = match snap.get("mcps") {
        Some(m) => match m {
            Json::Obj(o) => clone_pairs(o),
            _ => {
                return Err(
                    ConfigError::ParseError("the snapshot holds no entries object".to_owned()),
                );
            },
        },
        None => {
            return Err(
                ConfigError::ParseError("the snapshot holds no entries object".to_owned()),
            );
        },
    };
    let target = match resolve_target(&snap) {
        Some(tg) => tg,
        None => {
            return Err(
                ConfigError::ParseError("the snapshot records an unknown backend id".to_owned()),
            );
        },
    };
    let ttext = match target {
        Source::OpenCode => opencode_text,
        Source::Claude => claude_text,
    };
    let doc = match load_document(ttext, target) {
        Ok(d) => d,
        Err(e) => {
            return Err(e);
        },
    };
    let mut live = mapping_pairs_cloned(&doc, target);
    apply_all(&mut live, &mcps);
    let restored = mcps.len();
    proof {
        lemma_views_of_pairs(mcps@);
    }
    let new_doc = doc_set_mapping(doc, target, live);
    let new_text = render_json(&new_doc);
    let count_str = u64_to_string(restored as u64);
    let summary = "Successfully restored ".to_owned().concat(count_str.as_str()).concat(
        " MCPs to ",
    ).concat(display_name(target));
    Ok(RestoreOutcome { target, new_text, restored, summary })
}

/// The backend a snapshot's recorded id names, if it names one.
fn resolve_target(snap: &Json) -> (r: Option<Source>)
    ensures
        r == snap_target(snap@),
{
    proof {
        reveal_strlit("opencode");
        reveal_strlit("claudecode");
        reveal_strlit("");
        assert(""@.len() == 0);
        assert("opencode"@.len() == 8);
        assert("claudecode"@.len() == 10);
    }
    match snap.get("source") {
        Some(sv) => match sv.as_str_node() {
            Some(sid) => {
                if str_eq(sid.as_str(), "opencode") {
                    Some(Source::OpenCode)
                } else if str_eq(sid.as_str(), "claudecode") {
                    Some(Source::Claude)
                } else {
                    None
                }
            },
            None => None,
        },
        None => None,
    }
}

/// Restores one named entry from a backend's snapshot into the backend the
/// snapshot records. A name absent from the snapshot is a not-found failure.
pub fn restore_single_mcp(
    source: Source,
    mcp_name: &str,
    snapshot_text: Option<&str>,
    opencode_text: Option<&str>,
    claude_text: Option<&str>,
) -> (r: Result<RestoreOutcome, ConfigError>)
    ensures
        snapshot_text is None ==> r is Err && r->Err_0 is FileNotFound
            && r->Err_0->FileNotFound_0@ == source.spec_str(),
        snapshot_text is Some && json_parse(snapshot_text->0@) is None ==> r is Err
            && r->Err_0 is ParseError,
        snapshot_text is Some && json_parse(snapshot_text->0@) is Some ==> ({
            let snap = json_parse(snapshot_text->0@)->0;
            &&& !snap_mcps_ok(snap) ==> r is Err && r->Err_0 is ParseError
            &&& snap_mcps_ok(snap) && spec_lookup(snap_mcps(snap), mcp_name@) is None ==> r is Err
                && r->Err_0 is FileNotFound && r->Err_0->FileNotFound_0@ == mcp_name@
            &&& snap_mcps_ok(snap) && spec_lookup(snap_mcps(snap), mcp_name@) is Some
                && snap_target(snap) is None ==> r is Err && r->Err_0 is ParseError
            &&& snap_mcps_ok(snap) && spec_lookup(snap_mcps(snap), mcp_name@) is Some
                && snap_target(snap) is Some ==> ({
                let target = snap_target(snap)->0;
                let ttext = match target {
                    Source::OpenCode => text_view(opencode_text),
                    Source::Claude => text_view(claude_text),
                };
                &&& (r is Ok <==> spec_load_ok(ttext, target.mapping_key()))
                &&& r is Err ==> r->Err_0 is ParseError
                &&& r is Ok ==> ({
                    let live = spec_loaded(ttext, target.mapping_key());
                    &&& r->Ok_0.target == target
                    &&& r->Ok_0.new_text@ == json_text_of(
                        doc_with_mapping(
                            live,
                            target.mapping_key(),
                            spec_upsert(
                                doc_mapping(live, target.mapping_key()),
                                mcp_name@,
                                spec_lookup(snap_mcps(snap), mcp_name@)->0,
                            ),
                        ),
                    )
                    &&& r->Ok_0.restored == 1
                    &&& r->Ok_0.summary@ == "Successfully restored '"@ + mcp_name@ + "' to "@
                        + spec_display_name(target)
                })
            })
        }),
{
    let t = match snapshot_text {
        None => {
            return Err(ConfigError::FileNotFound(source.as_str().to_owned()));
        },
        Some(t) => t,
    };
    let snap = match parse_json(t) {
        Ok(v) => v,
        Err(e) => {
            return Err(ConfigError::ParseError(e));
        },
    };
    let def = match snap.get("mcps") {
        Some(m) => match m {
            Json::Obj(o) => {
                let ghost mv = views_of_pairs(o@);
                proof {
                    lemma_views_of_pairs(o@);
                }
                match pairs_find(o, mcp_name) {
                    Some(i) => {
                        proof {
                            lemma_lookup_first_match(mv, mcp_name@, i as int);
                        }
                        o[i].1.deep_clone()
                    },
                    None => {
                        proof {
                            lemma_lookup_no_match(mv, mcp_name@);
                        }
                        return Err(ConfigError::FileNotFound(mcp_name.to_owned()));
                    },
                }
            },
            _ => {
                return Err(
                    ConfigError::ParseError("the snapshot holds no entries object".to_owned()),
                );
            },
        },
        None => {
            return Err(
                ConfigError::ParseError("the snapshot holds no entries object".to_owned()),
            );
        },
    };
    let target = match resolve_target(&snap) {
        Some(tg) => tg,
        None => {
            return Err(
                ConfigError::ParseError("the snapshot records an unknown backend id".to_owned()),
            );
        },
    };
    let ttext = match target {
        Source::OpenCode => opencode_text,
        Source::Claude => claude_text,
    };
    let doc = match load_document(ttext, target) {
        Ok(d) => d,
        Err(e) => {
            return Err(e);
        },
    };
    let mut live = mapping_pairs_cloned(&doc, target);
    pairs_upsert(&mut live, mcp_name.to_owned(), def);
    let new_doc = doc_set_mapping(doc, target, live);
    let new_text = render_json(&new_doc);
    let summary = "Successfully restored '".to_owned().concat(mcp_name).concat("' to ").concat(
        display_name(target),
    );
    Ok(RestoreOutcome { target, new_text, restored: 1, summary })
}

/// A mapping with pairwise distinct keys.
pub open spec fn unique_keys(m: Seq<(Seq<char>, JsonSpec)>) -> bool {
    forall|i: int, j: int| 0 <= i < j < m.len() ==> m[i].0 != m[j].0
}

/// What an upsert yields under any key: the new value under the upserted key,
/// the old lookup everywhere else.
pub proof fn lemma_upsert_lookup(
    l: Seq<(Seq<char>, JsonSpec)>,
    k: Seq<char>,
    v: JsonSpec,
    k2: Seq<char>,
)
    ensures
        spec_lookup(spec_upsert(l, k, v), k2) == if k2 == k {
            Some(v)
        } else {
            spec_lookup(l, k2)
        },
    decreases l.len(),
{
    reveal_with_fuel(spec_lookup, 3);
    if l.len() == 0 {
        assert(seq![(k, v)].drop_first() =~= Seq::<(Seq<char>, JsonSpec)>::empty());
    } else if l[0].0 == k {
        assert((seq![(k, v)] + l.drop_first()).drop_first() =~= l.drop_first());
        assert((seq![(k, v)] + l.drop_first())[0] == (k, v));
    } else {
        lemma_upsert_lookup(l.drop_first(), k, v, k2);
        assert((seq![l[0]] + spec_upsert(l.drop_first(), k, v)).drop_first() =~= spec_upsert(
            l.drop_first(),
            k,
            v,
        ));
        assert((seq![l[0]] + spec_upsert(l.drop_first(), k, v))[0] == l[0]);
    }
}

/// An upsert grows the mapping by one pair exactly where the key was absent.
pub proof fn lemma_upsert_len(l: Seq<(Seq<char>, JsonSpec)>, k: Seq<char>, v: JsonSpec)
    ensures
        spec_upsert(l, k, v).len() == l.len() + (if spec_lookup(l, k) is Some {
            0int
        } else {
            1int
        }),
    decreases l.len(),
{
    if l.len() == 0 {
    } else if l[0].0 == k {
    } else {
        lemma_upsert_len(l.drop_first(), k, v);
    }
}

/// A key is found after restoring exactly where the live mapping or the
/// snapshot held it.
pub proof fn lemma_upsert_all_lookup(
    live: Seq<(Seq<char>, JsonSpec)>,
    snap: Seq<(Seq<char>, JsonSpec)>,
    k: Seq<char>,
)
    ensures
        spec_lookup(spec_upsert_all(live, snap), k) is Some <==> (spec_lookup(live, k) is Some
            || spec_lookup(snap, k) is Some),
    decreases snap.len(),
{
    if snap.len() > 0 {
        lemma_upsert_lookup(live, snap[0].0, snap[0].1, k);
        lemma_upsert_all_lookup(spec_upsert(live, snap[0].0, snap[0].1), snap.drop_first(), k);
    }
}

/// Restoring never shrinks the live mapping.
pub proof fn lemma_upsert_all_len(
    live: Seq<(Seq<char>, JsonSpec)>,
    snap: Seq<(Seq<char>, JsonSpec)>,
)
    ensures
        spec_upsert_all(live, snap).len() >= live.len(),
    decreases snap.len(),
{
    if snap.len() > 0 {
        lemma_upsert_len(live, snap[0].0, snap[0].1);
        lemma_upsert_all_len(spec_upsert(live, snap[0].0, snap[0].1), snap.drop_first());
    }
}

/// A key is found exactly where some pair carries it.
pub proof fn lemma_lookup_exists(m: Seq<(Seq<char>, JsonSpec)>, k: Seq<char>)
    ensures
        spec_lookup(m, k) is Some <==> exists|i: int| 0 <= i < m.len() && (#[trigger] m[i]).0 == k,
    decreases m.len(),
{
    if m.len() == 0 {
    } else if m[0].0 == k {
        assert(m[0].0 == k);
    } else {
        lemma_lookup_exists(m.drop_first(), k);
        if exists|i: int| 0 <= i < m.drop_first().len() && (#[trigger] m.drop_first()[i]).0 == k {
            let i = choose|i: int|
                0 <= i < m.drop_first().len() && (#[trigger] m.drop_first()[i]).0 == k;
            assert(m[i + 1].0 == k);
        }
        if exists|i: int| 0 <= i < m.len() && (#[trigger] m[i]).0 == k {
            let i = choose|i: int| 0 <= i < m.len() && (#[trigger] m[i]).0 == k;
            assert(m.drop_first()[i - 1] == m[i]);
        }
    }
}

/// Law: a full restore followed by a listing reports at least as many entries
/// as the snapshot holds, and at least as many as the store held — the merge
/// keeps every snapshot entry and never deletes a pre-existing live entry.
///
/// The snapshot's keys are names of a store mapping, hence pairwise distinct.
pub proof fn lemma_restore_all_counts(
    live: Seq<(Seq<char>, JsonSpec)>,
    snap: Seq<(Seq<char>, JsonSpec)>,
)
    requires
        unique_keys(snap),
    ensures
        spec_upsert_all(live, snap).len() >= snap.len(),
        spec_upsert_all(live, snap).len() >= live.len(),
        forall|k: Seq<char>| #[trigger] spec_lookup(live, k) is Some ==> spec_lookup(
            spec_upsert_all(live, snap),
            k,
        ) is Some,
{
    broadcast use vstd::seq_lib::seq_to_set_is_finite;

    let r = spec_upsert_all(live, snap);
    lemma_upsert_all_len(live, snap);
    assert forall|k: Seq<char>| #[trigger] spec_lookup(live, k) is Some implies spec_lookup(
        r,
        k,
    ) is Some by {
        lemma_upsert_all_lookup(live, snap, k);
    }

    let snap_keys = snap.map_values(|p: (Seq<char>, JsonSpec)| p.0);
    let r_keys = r.map_values(|p: (Seq<char>, JsonSpec)| p.0);
    assert(snap_keys.no_duplicates());
    snap_keys.unique_seq_to_set();
    r_keys.lemma_cardinality_of_set();
    assert forall|k: Seq<char>| snap_keys.to_set().contains(k) implies r_keys.to_set().contains(
        k,
    ) by {
        let i = choose|i: int| 0 <= i < snap_keys.len() && snap_keys[i] == k;
        assert(snap[i].0 == k);
        lemma_lookup_exists(snap, k);
        lemma_upsert_all_lookup(live, snap, k);
        lemma_lookup_exists(r, k);
        let j = choose|j: int| 0 <= j < r.len() && (#[trigger] r[j]).0 == k;
        assert(r_keys[j] == k);
        assert(r_keys.contains(k));
    }
    vstd::set_lib::lemma_len_subset(snap_keys.to_set(), r_keys.to_set());
}

} // verus!
