//! The per-backend config store: each backend persists one JSON document
//! holding a name-to-definition mapping under its own top-level key, beside
//! unrelated settings that every operation preserves verbatim.
//!
//! A missing document is an empty store, never an error; a document that is
//! not a JSON object, or whose mapping key holds anything but an object, is a
//! parse failure.

use vstd::prelude::*;
use vstd::pervasive::unreached;

use crate::codec::{json_parse, parse_json};
use crate::errors::ConfigError;
use crate::json::{
    lemma_views_of_pairs, pairs_upsert, spec_lookup, spec_upsert, views_of_pairs, Json, JsonSpec,
};

verus! {

/// Which backend a store, an entry or a snapshot belongs to.
#[derive(Debug, Clone, Copy, PartialEq, Eq, Structural)]
pub enum Source {
    OpenCode,
    Claude,
}

impl Source {
    /// The backend's identifier as persisted and displayed.
    pub open spec fn spec_str(self) -> Seq<char> {
        match self {
            Source::OpenCode => "opencode"@,
            Source::Claude => "claudecode"@,
        }
    }

    /// The top-level document key under which the backend keeps its mapping.
    pub open spec fn mapping_key(self) -> Seq<char> {
        match self {
            Source::OpenCode => "mcp"@,
            Source::Claude => "mcpServers"@,
        }
    }

    /// The backend's identifier as persisted and displayed.
    pub fn as_str(self) -> (r: &'static str)
        ensures
            r@ == self.spec_str(),
    {
        match self {
            Source::OpenCode => "opencode",
            Source::Claude => "claudecode",
        }
    }

    /// The top-level document key under which the backend keeps its mapping.
    pub fn mapping_key_str(self) -> (r: &'static str)
        ensures
            r@ == self.mapping_key(),
    {
        match self {
            Source::OpenCode => "mcp",
            Source::Claude => "mcpServers",
        }
    }
}

/// The view of optional document text.
pub open spec fn text_view(t: Option<&str>) -> Option<Seq<char>> {
    match t {
        Some(s) => Some(s@),
        None => None,
    }
}

/// The view of an optional owned string.
pub open spec fn opt_str_view(t: Option<String>) -> Option<Seq<char>> {
    match t {
        Some(s) => Some(s@),
        None => None,
    }
}

/// A well-formed backend document: a JSON object whose mapping key, where
/// present, holds an object.
pub open spec fn doc_wf(doc: JsonSpec, mkey: Seq<char>) -> bool {
    &&& doc is Obj
    &&& match spec_lookup(doc->Obj_0, mkey) {
        Some(m) => m is Obj,
        None => true,
    }
}

/// The document's name-to-definition mapping: what its mapping key holds,
/// or empty where the key is absent.
pub open spec fn doc_mapping(doc: JsonSpec, mkey: Seq<char>) -> Seq<(Seq<char>, JsonSpec)> {
    match spec_lookup(doc->Obj_0, mkey) {
        Some(JsonSpec::Obj(l)) => l,
        _ => Seq::empty(),
    }
}

/// The document with its mapping replaced by `m`, everything else untouched.
pub open spec fn doc_with_mapping(
    doc: JsonSpec,
    mkey: Seq<char>,
    m: Seq<(Seq<char>, JsonSpec)>,
) -> JsonSpec {
    JsonSpec::Obj(spec_upsert(doc->Obj_0, mkey, JsonSpec::Obj(m)))
}

/// Whether loading the given document text succeeds: a missing file always
/// does; text must parse to a well-formed document.
pub open spec fn spec_load_ok(text: Option<Seq<char>>, mkey: Seq<char>) -> bool {
    match text {
        None => true,
        Some(t) => json_parse(t) is Some && doc_wf(json_parse(t)->0, mkey),
    }
}

/// What loading yields: the parsed document, or the empty document for a
/// missing file.
pub open spec fn spec_loaded(text: Option<Seq<char>>, mkey: Seq<char>) -> JsonSpec {
    match text {
        None => JsonSpec::Obj(Seq::empty()),
        Some(t) => json_parse(t)->0,
    }
}

/// Loads one backend's document from its file's text. A missing file is an
/// empty store with an empty mapping; malformed text is a parse failure.
pub fn load_document(text: Option<&str>, source: Source) -> (r: Result<Json, ConfigError>)
    ensures
        r is Ok <==> spec_load_ok(text_view(text), source.mapping_key()),
        r is Ok ==> r->Ok_0@ == spec_loaded(text_view(text), source.mapping_key()) && doc_wf(
            r->Ok_0@,
            source.mapping_key(),
        ),
        text is None ==> r is Ok && doc_mapping(r->Ok_0@, source.mapping_key())
            == Seq::<(Seq<char>, JsonSpec)>::empty(),
        r is Err ==> r->Err_0 is ParseError,
{
    match text {
        None => {
            let doc = Json::Obj(Vec::new());
            proof {
                assert(views_of_pairs(Seq::<(String, Json)>::empty())
                    =~= Seq::<(Seq<char>, JsonSpec)>::empty());
            }
            Ok(doc)
        },
        Some(t) => match parse_json(t) {
            Err(e) => Err(ConfigError::ParseError(e)),
            Ok(doc) => {
                let wf = match &doc {
                    Json::Obj(_) => match doc.get(source.mapping_key_str()) {
                        None => true,
                        Some(m) => match m {
                            Json::Obj(_) => true,
                            _ => false,
                        },
                    },
                    _ => false,
                };
                if wf {
                    Ok(doc)
                } else {
                    Err(
                        ConfigError::ParseError(
                            "the document does not fit the backend's schema".to_owned(),
                        ),
                    )
                }
            },
        },
    }
}

/// Full copies of an object's pairs, key by key and value by value.
pub fn clone_pairs(o: &Vec<(String, Json)>) -> (r: Vec<(String, Json)>)
    ensures
        views_of_pairs(r@) == views_of_pairs(o@),
{
    let mut out: Vec<(String, Json)> = Vec::new();
    let mut i: usize = 0;
    while i < o.len()
        invariant
            0 <= i <= o@.len(),
            out@.len() == i,
            forall|j: int| 0 <= j < i ==> out@[j].0@ == o@[j].0@ && out@[j].1@ == o@[j].1@,
        decreases o.len() - i,
    {
        let k = o[i].0.clone();
        let v = o[i].1.deep_clone();
        out.push((k, v));
        i += 1;
    }
    proof {
        lemma_views_of_pairs(out@);
        lemma_views_of_pairs(o@);
        assert(views_of_pairs(out@) =~= views_of_pairs(o@));
    }
    out
}

/// A full copy of the document's mapping, for reading or rebuilding.
pub fn mapping_pairs_cloned(doc: &Json, source: Source) -> (r: Vec<(String, Json)>)
    requires
        doc_wf(doc@, source.mapping_key()),
    ensures
        views_of_pairs(r@) == doc_mapping(doc@, source.mapping_key()),
{
    match doc.get(source.mapping_key_str()) {
        Some(m) => match m {
            Json::Obj(o) => clone_pairs(o),
            _ => unreached(),
        },
        None => {
            let r = Vec::new();
            proof {
                assert(views_of_pairs(Seq::<(String, Json)>::empty())
                    =~= Seq::<(Seq<char>, JsonSpec)>::empty());
            }
            r
        },
    }
}

/// The document with its mapping replaced by `m`; its other fields stand as
/// they were.
pub fn doc_set_mapping(doc: Json, source: Source, m: Vec<(String, Json)>) -> (r: Json)
    requires
        doc@ is Obj,
    ensures
        r@ == doc_with_mapping(doc@, source.mapping_key(), views_of_pairs(m@)),
{
    match doc {
        Json::Obj(mut pairs) => {
            pairs_upsert(&mut pairs, source.mapping_key_str().to_owned(), Json::Obj(m));
            Json::Obj(pairs)
        },
        _ => unreached(),
    }
}

} // verus!
