//! The bidirectional, field-level converter between the two backends' raw
//! definition shapes.
//!
//! Backend A (the `mcp` document) writes a launch command as one array and
//! carries `environment`, `enabled` and `description`; Backend B (the
//! `mcpServers` document) splits the command into a string plus `args`,
//! carries `env`, and has no enabled or description concept. Both converters
//! are pure tree-to-tree functions, specified constructively pair by pair.

use vstd::prelude::*;

use crate::json::{
    lemma_lookup_concat, lemma_lookup_first_match, lemma_lookup_no_match, lemma_views_of_elems,
    lemma_views_of_pairs, spec_get, spec_has, spec_lookup, views_of_elems, views_of_pairs, Json,
    JsonSpec,
};

verus! {

/// The pair copied verbatim for one key, where the source holds it.
pub open spec fn spec_copy_one(c: JsonSpec, key: Seq<char>) -> Seq<(Seq<char>, JsonSpec)> {
    match spec_get(c, key) {
        Some(v) => seq![(key, v)],
        None => Seq::empty(),
    }
}

/// The pair for one key moved under a new name, where the source holds it.
pub open spec fn spec_move_one(c: JsonSpec, from: Seq<char>, to: Seq<char>) -> Seq<
    (Seq<char>, JsonSpec),
> {
    match spec_get(c, from) {
        Some(v) => seq![(to, v)],
        None => Seq::empty(),
    }
}

/// A-to-B: the command pairs. An array command is split into its first
/// element plus an `args` array (omitted when nothing follows); a
/// non-array command is copied as it stands.
pub open spec fn spec_atob_command(c: JsonSpec) -> Seq<(Seq<char>, JsonSpec)> {
    match spec_get(c, "command"@) {
        Some(cmd) => match cmd {
            JsonSpec::Arr(a) => if a.len() == 0 {
                Seq::empty()
            } else if a.len() == 1 {
                seq![("command"@, a[0])]
            } else {
                seq![("command"@, a[0]), ("args"@, JsonSpec::Arr(a.skip(1)))]
            },
            _ => seq![("command"@, cmd)],
        },
        None => Seq::empty(),
    }
}

/// The fields both shapes share, copied verbatim in a fixed order.
pub open spec fn spec_common_copies(c: JsonSpec) -> Seq<(Seq<char>, JsonSpec)> {
    spec_copy_one(c, "url"@) + spec_copy_one(c, "headers"@) + spec_copy_one(c, "transport"@)
        + spec_copy_one(c, "timeout"@)
}

/// A-to-B: the derived `type` pair — `"http"` for a source with a `url`,
/// `"stdio"` for one with a `command`, nothing otherwise.
pub open spec fn spec_atob_type(c: JsonSpec) -> Seq<(Seq<char>, JsonSpec)> {
    if spec_has(c, "url"@) {
        seq![("type"@, JsonSpec::Str("http"@))]
    } else if spec_has(c, "command"@) {
        seq![("type"@, JsonSpec::Str("stdio"@))]
    } else {
        Seq::empty()
    }
}

/// The whole A-to-B conversion. `enabled` and `description` are dropped by
/// construction: no part of the result carries them.
pub open spec fn spec_convert_opencode_to_claude(c: JsonSpec) -> JsonSpec {
    JsonSpec::Obj(
        spec_atob_command(c) + spec_move_one(c, "environment"@, "env"@) + spec_common_copies(c)
            + spec_atob_type(c),
    )
}

/// B-to-A: the derived `type` value — `"remote"` for a source with a `url`,
/// `"local"` otherwise.
pub open spec fn spec_btoa_type(c: JsonSpec) -> JsonSpec {
    if spec_has(c, "url"@) {
        JsonSpec::Str("remote"@)
    } else {
        JsonSpec::Str("local"@)
    }
}

/// B-to-A: what the `command` field contributes to the merged array — a
/// string command as one element, an array command's elements as they stand.
pub open spec fn spec_command_part(c: JsonSpec) -> Seq<JsonSpec> {
    match spec_get(c, "command"@) {
        Some(JsonSpec::Str(s)) => seq![JsonSpec::Str(s)],
        Some(JsonSpec::Arr(a)) => a,
        _ => Seq::empty(),
    }
}

/// B-to-A: what the `args` field contributes to the merged array.
pub open spec fn spec_args_part(c: JsonSpec) -> Seq<JsonSpec> {
    match spec_get(c, "args"@) {
        Some(JsonSpec::Arr(a)) => a,
        _ => Seq::empty(),
    }
}

/// B-to-A: the one command array — the command's contribution followed by the
/// `args` elements.
pub open spec fn spec_merged_command(c: JsonSpec) -> Seq<JsonSpec> {
    spec_command_part(c) + spec_args_part(c)
}

/// B-to-A: the command pair, present only where the merge is non-empty.
pub open spec fn spec_btoa_command(c: JsonSpec) -> Seq<(Seq<char>, JsonSpec)> {
    if spec_merged_command(c).len() == 0 {
        Seq::empty()
    } else {
        seq![("command"@, JsonSpec::Arr(spec_merged_command(c)))]
    }
}

/// The whole B-to-A conversion. `type` is re-derived and `enabled` is always
/// set to `true`, whatever the source carried; `description` is copied where
/// present.
pub open spec fn spec_convert_claude_to_opencode(c: JsonSpec) -> JsonSpec {
    JsonSpec::Obj(
        seq![("type"@, spec_btoa_type(c)), ("enabled"@, JsonSpec::Bool(true))]
            + spec_btoa_command(c) + spec_move_one(c, "env"@, "environment"@)
            + spec_common_copies(c) + spec_copy_one(c, "description"@),
    )
}

/// Moves one field onto the end of `out` under a new name, where the source
/// holds it.
fn push_moved(c: &Json, from: &str, to: &str, out: &mut Vec<(String, Json)>)
    ensures
        views_of_pairs(final(out)@) == views_of_pairs(old(out)@) + spec_move_one(c@, from@, to@),
{
    let ghost l0 = views_of_pairs(old(out)@);
    proof {
        lemma_views_of_pairs(old(out)@);
    }
    match c.get(from) {
        Some(v) => {
            let p = (to.to_owned(), v.deep_clone());
            out.push(p);
            proof {
                lemma_views_of_pairs(out@);
                assert(views_of_pairs(out@) =~= l0 + spec_move_one(c@, from@, to@));
            }
        },
        None => {
            proof {
                assert(views_of_pairs(out@) =~= l0 + spec_move_one(c@, from@, to@));
            }
        },
    }
}

/// Copies one field verbatim onto the end of `out`, where the source holds it.
fn push_copy(c: &Json, key: &str, out: &mut Vec<(String, Json)>)
    ensures
        views_of_pairs(final(out)@) == views_of_pairs(old(out)@) + spec_copy_one(c@, key@),
{
    push_moved(c, key, key, out);
    proof {
        assert(spec_move_one(c@, key@, key@) =~= spec_copy_one(c@, key@));
    }
}

/// Appends the four shared fields in their fixed order.
fn push_common_copies(c: &Json, out: &mut Vec<(String, Json)>)
    ensures
        views_of_pairs(final(out)@) == views_of_pairs(old(out)@) + spec_common_copies(c@),
{
    push_copy(c, "url", out);
    push_copy(c, "headers", out);
    push_copy(c, "transport", out);
    push_copy(c, "timeout", out);
    proof {
        assert(views_of_pairs(out@) =~= views_of_pairs(old(out)@) + spec_common_copies(c@));
    }
}

/// Appends full copies of `a`'s elements to `merged`.
fn push_elem_clones(a: &Vec<Json>, merged: &mut Vec<Json>)
    ensures
        views_of_elems(final(merged)@) == views_of_elems(old(merged)@) + views_of_elems(a@),
{
    let ghost m0 = merged@;
    let mut i: usize = 0;
    while i < a.len()
        invariant
            0 <= i <= a@.len(),
            merged@.len() == m0.len() + i,
            forall|j: int| 0 <= j < m0.len() ==> merged@[j] == m0[j],
            forall|j: int| 0 <= j < i ==> merged@[m0.len() + j]@ == a@[j]@,
        decreases a.len() - i,
    {
        let e = a[i].deep_clone();
        merged.push(e);
        i += 1;
    }
    proof {
        lemma_views_of_elems(merged@);
        lemma_views_of_elems(m0);
        lemma_views_of_elems(a@);
        assert(views_of_elems(merged@) =~= views_of_elems(m0) + views_of_elems(a@));
    }
}

/// Converts one raw definition from Backend A's shape to Backend B's shape.
///
/// The result is exactly the pair sequence of
/// [`spec_convert_opencode_to_claude`]: split or copied command, `environment`
/// moved to `env`, the shared fields, and the derived `type` — never
/// `enabled` or `description`.
pub fn convert_opencode_to_claude(config: &Json) -> (r: Json)
    ensures
        r@ == spec_convert_opencode_to_claude(config@),
{
    let mut out: Vec<(String, Json)> = Vec::new();

    match config.get("command") {
        Some(cmd) => match cmd {
            Json::Arr(a) => {
                proof {
                    lemma_views_of_elems(a@);
                }
                if a.len() > 0 {
                    let head = ("command".to_owned(), a[0].deep_clone());
                    out.push(head);
                    if a.len() > 1 {
                        let mut rest: Vec<Json> = Vec::new();
                        let mut i: usize = 1;
                        while i < a.len()
                            invariant
                                1 <= i <= a@.len(),
                                rest@.len() == i - 1,
                                forall|j: int| 0 <= j < i - 1 ==> rest@[j]@ == a@[j + 1]@,
                            decreases a.len() - i,
                        {
                            let e = a[i].deep_clone();
                            rest.push(e);
                            i += 1;
                        }
                        proof {
                            lemma_views_of_elems(rest@);
                            lemma_views_of_elems(a@);
                            assert(views_of_elems(rest@) =~= views_of_elems(a@).skip(1));
                        }
                        let tail = ("args".to_owned(), Json::Arr(rest));
                        out.push(tail);
                    }
                }
                proof {
                    lemma_views_of_pairs(out@);
                    assert(views_of_pairs(out@) =~= spec_atob_command(config@));
                }
            },
            _ => {
                let p = ("command".to_owned(), cmd.deep_clone());
                out.push(p);
                proof {
                    lemma_views_of_pairs(out@);
                    assert(views_of_pairs(out@) =~= spec_atob_command(config@));
                }
            },
        },
        None => {
            proof {
                lemma_views_of_pairs(out@);
                assert(views_of_pairs(out@) =~= spec_atob_command(config@));
            }
        },
    }

    push_moved(config, "environment", "env", &mut out);
    push_common_copies(config, &mut out);
    let ghost base = views_of_pairs(out@);
    let ghost o3 = out@;

    if config.has("url") {
        let p = ("type".to_owned(), Json::Str("http".to_owned()));
        out.push(p);
        proof {
            lemma_views_of_pairs(o3);
            lemma_views_of_pairs(out@);
            assert(views_of_pairs(out@) =~= base + spec_atob_type(config@));
        }
    } else if config.has("command") {
        let p = ("type".to_owned(), Json::Str("stdio".to_owned()));
        out.push(p);
        proof {
            lemma_views_of_pairs(o3);
            lemma_views_of_pairs(out@);
            assert(views_of_pairs(out@) =~= base + spec_atob_type(config@));
        }
    } else {
        proof {
            assert(views_of_pairs(out@) =~= base + spec_atob_type(config@));
        }
    }

    Json::Obj(out)
}

/// Converts one raw definition from Backend B's shape to Backend A's shape.
///
/// The result is exactly the pair sequence of
/// [`spec_convert_claude_to_opencode`]: the derived `type`, `enabled = true`,
/// the merged command array where non-empty, `env` moved to `environment`,
/// the shared fields, and a copied `description`.
pub fn convert_claude_to_opencode(config: &Json) -> (r: Json)
    ensures
        r@ == spec_convert_claude_to_opencode(config@),
{
    let mut out: Vec<(String, Json)> = Vec::new();

    let ty = if config.has("url") {
        "remote"
    } else {
        "local"
    };
    let p0 = ("type".to_owned(), Json::Str(ty.to_owned()));
    out.push(p0);
    let p1 = ("enabled".to_owned(), Json::Bool(true));
    out.push(p1);
    let ghost head = seq![
        ("type"@, spec_btoa_type(config@)),
        ("enabled"@, JsonSpec::Bool(true)),
    ];
    proof {
        lemma_views_of_pairs(out@);
        assert(views_of_pairs(out@) =~= head);
    }

    let mut merged: Vec<Json> = Vec::new();
    proof {
        assert(views_of_elems(merged@) =~= Seq::<JsonSpec>::empty());
    }
    match config.get("command") {
        Some(cmd) => match cmd {
            Json::Str(_) => {
                let e = cmd.deep_clone();
                merged.push(e);
                proof {
                    lemma_views_of_elems(merged@);
                    assert(views_of_elems(merged@) =~= spec_command_part(config@));
                }
            },
            Json::Arr(a) => {
                push_elem_clones(a, &mut merged);
                proof {
                    assert(views_of_elems(merged@) =~= spec_command_part(config@));
                }
            },
            _ => {
                proof {
                    assert(views_of_elems(merged@) =~= spec_command_part(config@));
                }
            },
        },
        None => {
            proof {
                assert(views_of_elems(merged@) =~= spec_command_part(config@));
            }
        },
    }
    let ghost from_command = views_of_elems(merged@);
    match config.get("args") {
        Some(ar) => match ar {
            Json::Arr(a) => {
                push_elem_clones(a, &mut merged);
                proof {
                    assert(views_of_elems(merged@) =~= spec_merged_command(config@));
                }
            },
            _ => {
                proof {
                    assert(views_of_elems(merged@) =~= spec_merged_command(config@));
                }
            },
        },
        None => {
            proof {
                assert(views_of_elems(merged@) =~= spec_merged_command(config@));
            }
        },
    }
    proof {
        lemma_views_of_elems(merged@);
    }
    let ghost o2 = out@;
    if merged.len() > 0 {
        let p = ("command".to_owned(), Json::Arr(merged));
        out.push(p);
        proof {
            lemma_views_of_pairs(o2);
            lemma_views_of_pairs(out@);
            assert(views_of_pairs(out@) =~= head + spec_btoa_command(config@));
        }
    } else {
        proof {
            assert(views_of_pairs(out@) =~= head + spec_btoa_command(config@));
        }
    }

    push_moved(config, "env", "environment", &mut out);
    push_common_copies(config, &mut out);
    push_copy(config, "description", &mut out);
    proof {
        assert(views_of_pairs(out@) =~= head + spec_btoa_command(config@) + spec_move_one(
            config@,
            "env"@,
            "environment"@,
        ) + spec_common_copies(config@) + spec_copy_one(config@, "description"@));
    }

    Json::Obj(out)
}

/// The recognized field names are pairwise distinct: each pair differs in
/// length or in its first character.
pub proof fn lemma_distinct_keys()
    ensures
        "command"@ != "args"@,
        "command"@ != "env"@,
        "command"@ != "url"@,
        "command"@ != "headers"@,
        "command"@ != "transport"@,
        "command"@ != "timeout"@,
        "command"@ != "type"@,
        "command"@ != "enabled"@,
        "command"@ != "description"@,
        "command"@ != "environment"@,
        "args"@ != "env"@,
        "args"@ != "url"@,
        "args"@ != "headers"@,
        "args"@ != "transport"@,
        "args"@ != "timeout"@,
        "args"@ != "type"@,
        "args"@ != "enabled"@,
        "args"@ != "description"@,
        "args"@ != "environment"@,
        "env"@ != "url"@,
        "env"@ != "headers"@,
        "env"@ != "transport"@,
        "env"@ != "timeout"@,
        "env"@ != "type"@,
        "env"@ != "enabled"@,
        "env"@ != "description"@,
        "env"@ != "environment"@,
        "url"@ != "headers"@,
        "url"@ != "transport"@,
        "url"@ != "timeout"@,
        "url"@ != "type"@,
        "url"@ != "enabled"@,
        "url"@ != "description"@,
        "url"@ != "environment"@,
        "headers"@ != "transport"@,
        "headers"@ != "timeout"@,
        "headers"@ != "type"@,
        "headers"@ != "enabled"@,
        "headers"@ != "description"@,
        "headers"@ != "environment"@,
        "transport"@ != "timeout"@,
        "transport"@ != "type"@,
        "transport"@ != "enabled"@,
        "transport"@ != "description"@,
        "transport"@ != "environment"@,
        "timeout"@ != "type"@,
        "timeout"@ != "enabled"@,
        "timeout"@ != "description"@,
        "timeout"@ != "environment"@,
        "type"@ != "enabled"@,
        "type"@ != "description"@,
        "type"@ != "environment"@,
        "enabled"@ != "description"@,
        "enabled"@ != "environment"@,
        "description"@ != "environment"@,
{
    reveal_strlit("command");
    reveal_strlit("args");
    reveal_strlit("env");
    reveal_strlit("url");
    reveal_strlit("headers");
    reveal_strlit("transport");
    reveal_strlit("timeout");
    reveal_strlit("type");
    reveal_strlit("enabled");
    reveal_strlit("description");
    reveal_strlit("environment");
    assert("command"@.len() == 7);
    assert("args"@.len() == 4);
    assert("env"@.len() == 3);
    assert("url"@.len() == 3);
    assert("headers"@.len() == 7);
    assert("transport"@.len() == 9);
    assert("timeout"@.len() == 7);
    assert("type"@.len() == 4);
    assert("enabled"@.len() == 7);
    assert("description"@.len() == 11);
    assert("environment"@.len() == 11);
    assert("command"@[0] == 'c');
    assert("args"@[0] == 'a');
    assert("env"@[0] == 'e');
    assert("url"@[0] == 'u');
    assert("headers"@[0] == 'h');
    assert("transport"@[0] == 't');
    assert("timeout"@[0] == 't');
    assert("type"@[0] == 't');
    assert("enabled"@[0] == 'e');
    assert("description"@[0] == 'd');
    assert("environment"@[0] == 'e');
}

/// A key other than the one copied is not found in a copied pair.
proof fn lemma_copy_one_misses(c: JsonSpec, k: Seq<char>, key: Seq<char>)
    requires
        k != key,
    ensures
        spec_lookup(spec_copy_one(c, k), key) is None,
{
    lemma_lookup_no_match(spec_copy_one(c, k), key);
}

/// A key other than the new name is not found in a moved pair.
proof fn lemma_move_one_misses(c: JsonSpec, from: Seq<char>, to: Seq<char>, key: Seq<char>)
    requires
        to != key,
    ensures
        spec_lookup(spec_move_one(c, from, to), key) is None,
{
    lemma_lookup_no_match(spec_move_one(c, from, to), key);
}

/// A key outside the four shared field names is not found among the copies.
proof fn lemma_common_copies_misses(c: JsonSpec, key: Seq<char>)
    requires
        key != "url"@,
        key != "headers"@,
        key != "transport"@,
        key != "timeout"@,
    ensures
        spec_lookup(spec_common_copies(c), key) is None,
{
    lemma_copy_one_misses(c, "url"@, key);
    lemma_copy_one_misses(c, "headers"@, key);
    lemma_copy_one_misses(c, "transport"@, key);
    lemma_copy_one_misses(c, "timeout"@, key);
    lemma_lookup_concat(spec_copy_one(c, "url"@), spec_copy_one(c, "headers"@), key);
    lemma_lookup_concat(
        spec_copy_one(c, "url"@) + spec_copy_one(c, "headers"@),
        spec_copy_one(c, "transport"@),
        key,
    );
    lemma_lookup_concat(
        spec_copy_one(c, "url"@) + spec_copy_one(c, "headers"@) + spec_copy_one(c, "transport"@),
        spec_copy_one(c, "timeout"@),
        key,
    );
}

/// What the A-to-B conversion yields under any key: `command` and `args` from
/// the command split, `env` from `environment`, the four shared copies, the
/// derived `type`, and nothing under any other key.
pub proof fn lemma_atob_get(c: JsonSpec, key: Seq<char>)
    ensures
        spec_get(spec_convert_opencode_to_claude(c), key) == {
            let s = spec_atob_command(c) + spec_move_one(c, "environment"@, "env"@)
                + spec_common_copies(c) + spec_atob_type(c);
            spec_lookup(s, key)
        },
        spec_lookup(
            spec_convert_opencode_to_claude(c)->Obj_0,
            key,
        ) == if spec_lookup(spec_atob_command(c), key) is Some {
            spec_lookup(spec_atob_command(c), key)
        } else if spec_lookup(spec_move_one(c, "environment"@, "env"@), key) is Some {
            spec_lookup(spec_move_one(c, "environment"@, "env"@), key)
        } else if spec_lookup(spec_common_copies(c), key) is Some {
            spec_lookup(spec_common_copies(c), key)
        } else {
            spec_lookup(spec_atob_type(c), key)
        },
{
    let s1 = spec_atob_command(c);
    let s2 = spec_move_one(c, "environment"@, "env"@);
    let s3 = spec_common_copies(c);
    let s4 = spec_atob_type(c);
    lemma_lookup_concat(s1, s2, key);
    lemma_lookup_concat(s1 + s2, s3, key);
    lemma_lookup_concat(s1 + s2 + s3, s4, key);
}

/// What the B-to-A conversion yields under any key, segment by segment.
pub proof fn lemma_btoa_get(c: JsonSpec, key: Seq<char>)
    ensures
        spec_lookup(spec_convert_claude_to_opencode(c)->Obj_0, key) == {
            let head = seq![
                ("type"@, spec_btoa_type(c)),
                ("enabled"@, JsonSpec::Bool(true)),
            ];
            if spec_lookup(head, key) is Some {
                spec_lookup(head, key)
            } else if spec_lookup(spec_btoa_command(c), key) is Some {
                spec_lookup(spec_btoa_command(c), key)
            } else if spec_lookup(spec_move_one(c, "env"@, "environment"@), key) is Some {
                spec_lookup(spec_move_one(c, "env"@, "environment"@), key)
            } else if spec_lookup(spec_common_copies(c), key) is Some {
                spec_lookup(spec_common_copies(c), key)
            } else {
                spec_lookup(spec_copy_one(c, "description"@), key)
            }
        },
{
    let head = seq![("type"@, spec_btoa_type(c)), ("enabled"@, JsonSpec::Bool(true))];
    let s2 = spec_btoa_command(c);
    let s3 = spec_move_one(c, "env"@, "environment"@);
    let s4 = spec_common_copies(c);
    let s5 = spec_copy_one(c, "description"@);
    lemma_lookup_concat(head, s2, key);
    lemma_lookup_concat(head + s2, s3, key);
    lemma_lookup_concat(head + s2 + s3, s4, key);
    lemma_lookup_concat(head + s2 + s3 + s4, s5, key);
}

/// Law: a raw definition converted from A's shape to B's shape never carries
/// `enabled` or `description`, whatever the input held.
pub proof fn lemma_atob_drops_a_only_fields(c: JsonSpec)
    ensures
        !spec_has(spec_convert_opencode_to_claude(c), "enabled"@),
        !spec_has(spec_convert_opencode_to_claude(c), "description"@),
{
    lemma_distinct_keys();
    lemma_atob_misses(c, "enabled"@);
    lemma_atob_misses(c, "description"@);
}

/// A key the A-to-B conversion never writes is absent from its result.
proof fn lemma_atob_misses(c: JsonSpec, key: Seq<char>)
    requires
        key != "command"@,
        key != "args"@,
        key != "env"@,
        key != "url"@,
        key != "headers"@,
        key != "transport"@,
        key != "timeout"@,
        key != "type"@,
    ensures
        !spec_has(spec_convert_opencode_to_claude(c), key),
{
    lemma_lookup_no_match(spec_atob_command(c), key);
    lemma_move_one_misses(c, "environment"@, "env"@, key);
    lemma_common_copies_misses(c, key);
    lemma_lookup_no_match(spec_atob_type(c), key);
    lemma_atob_get(c, key);
}

/// Law: a raw definition converted from B's shape to A's shape always carries
/// `enabled = true`, whatever the input held under `enabled`.
pub proof fn lemma_btoa_sets_enabled(c: JsonSpec)
    ensures
        spec_get(spec_convert_claude_to_opencode(c), "enabled"@) == Some(JsonSpec::Bool(true)),
{
    lemma_distinct_keys();
    let head = seq![("type"@, spec_btoa_type(c)), ("enabled"@, JsonSpec::Bool(true))];
    let whole = spec_convert_claude_to_opencode(c)->Obj_0;
    assert(whole[0] == head[0] && whole[1] == head[1]);
    lemma_lookup_first_match(whole, "enabled"@, 1);
}

/// Law: the A-to-B conversion derives `type` from the input — `"http"` with a
/// `url`, `"stdio"` with only a `command`, nothing with neither.
pub proof fn lemma_atob_type_inference(c: JsonSpec)
    ensures
        spec_has(c, "url"@) ==> spec_get(spec_convert_opencode_to_claude(c), "type"@) == Some(
            JsonSpec::Str("http"@),
        ),
        !spec_has(c, "url"@) && spec_has(c, "command"@) ==> spec_get(
            spec_convert_opencode_to_claude(c),
            "type"@,
        ) == Some(JsonSpec::Str("stdio"@)),
        !spec_has(c, "url"@) && !spec_has(c, "command"@) ==> spec_get(
            spec_convert_opencode_to_claude(c),
            "type"@,
        ) is None,
{
    lemma_distinct_keys();
    lemma_lookup_no_match(spec_atob_command(c), "type"@);
    lemma_move_one_misses(c, "environment"@, "env"@, "type"@);
    lemma_common_copies_misses(c, "type"@);
    if spec_has(c, "url"@) || spec_has(c, "command"@) {
        lemma_lookup_first_match(spec_atob_type(c), "type"@, 0);
    } else {
        lemma_lookup_no_match(spec_atob_type(c), "type"@);
    }
    lemma_atob_get(c, "type"@);
}

/// Law: the B-to-A conversion derives `type` from the input — `"remote"` with
/// a `url`, `"local"` without.
pub proof fn lemma_btoa_type_inference(c: JsonSpec)
    ensures
        spec_get(spec_convert_claude_to_opencode(c), "type"@) == Some(spec_btoa_type(c)),
        spec_has(c, "url"@) ==> spec_btoa_type(c) == JsonSpec::Str("remote"@),
        !spec_has(c, "url"@) ==> spec_btoa_type(c) == JsonSpec::Str("local"@),
{
    let whole = spec_convert_claude_to_opencode(c)->Obj_0;
    let head = seq![("type"@, spec_btoa_type(c)), ("enabled"@, JsonSpec::Bool(true))];
    assert(whole[0] == head[0]);
    lemma_lookup_first_match(whole, "type"@, 0);
}

/// Law: the A-to-B conversion carries `environment` over as `env`, value
/// unchanged — and writes no `env` where the input had no `environment`.
pub proof fn lemma_atob_env(c: JsonSpec)
    ensures
        spec_get(spec_convert_opencode_to_claude(c), "env"@) == spec_get(c, "environment"@),
{
    lemma_distinct_keys();
    lemma_lookup_no_match(spec_atob_command(c), "env"@);
    lemma_common_copies_misses(c, "env"@);
    lemma_lookup_no_match(spec_atob_type(c), "env"@);
    match spec_get(c, "environment"@) {
        Some(v) => {
            lemma_lookup_first_match(spec_move_one(c, "environment"@, "env"@), "env"@, 0);
        },
        None => {
            lemma_lookup_no_match(spec_move_one(c, "environment"@, "env"@), "env"@);
        },
    }
    lemma_atob_get(c, "env"@);
}

/// Law: the B-to-A conversion carries `env` over as `environment`, value
/// unchanged — and writes no `environment` where the input had no `env`.
pub proof fn lemma_btoa_env(c: JsonSpec)
    ensures
        spec_get(spec_convert_claude_to_opencode(c), "environment"@) == spec_get(c, "env"@),
{
    lemma_distinct_keys();
    let head = seq![("type"@, spec_btoa_type(c)), ("enabled"@, JsonSpec::Bool(true))];
    lemma_lookup_no_match(head, "environment"@);
    lemma_lookup_no_match(spec_btoa_command(c), "environment"@);
    lemma_common_copies_misses(c, "environment"@);
    lemma_copy_one_misses(c, "description"@, "environment"@);
    match spec_get(c, "env"@) {
        Some(v) => {
            lemma_lookup_first_match(spec_move_one(c, "env"@, "environment"@), "environment"@, 0);
        },
        None => {
            lemma_lookup_no_match(spec_move_one(c, "env"@, "environment"@), "environment"@);
        },
    }
    lemma_btoa_get(c, "environment"@);
}

/// Law: for a non-empty array command whose first element is a string,
/// converting A to B and back preserves the command array exactly — the B-to-A
/// merge of the split command and `args` rebuilds it.
///
/// The first element must be a string: the conversions flatten an array-valued
/// first element and drop a non-string one, by design of the B shape.
pub proof fn lemma_roundtrip_command(c: JsonSpec)
    requires
        spec_get(c, "command"@) is Some,
        spec_get(c, "command"@)->0 is Arr,
        spec_get(c, "command"@)->0->Arr_0.len() > 0,
        spec_get(c, "command"@)->0->Arr_0[0] is Str,
    ensures
        spec_get(
            spec_convert_claude_to_opencode(spec_convert_opencode_to_claude(c)),
            "command"@,
        ) == spec_get(c, "command"@),
{
    lemma_distinct_keys();
    let a = spec_get(c, "command"@)->0->Arr_0;
    let b = spec_convert_opencode_to_claude(c);

    // What B holds under `command` and `args`.
    lemma_lookup_first_match(spec_atob_command(c), "command"@, 0);
    lemma_move_one_misses(c, "environment"@, "env"@, "command"@);
    lemma_common_copies_misses(c, "command"@);
    lemma_atob_get(c, "command"@);
    assert(spec_get(b, "command"@) == Some(a[0]));
    if a.len() > 1 {
        lemma_lookup_first_match(spec_atob_command(c), "args"@, 1);
    } else {
        lemma_lookup_no_match(spec_atob_command(c), "args"@);
    }
    lemma_move_one_misses(c, "environment"@, "env"@, "args"@);
    lemma_common_copies_misses(c, "args"@);
    lemma_lookup_no_match(spec_atob_type(c), "args"@);
    lemma_atob_get(c, "args"@);

    // The merge rebuilds the original array.
    assert(spec_command_part(b) == seq![a[0]]);
    if a.len() > 1 {
        assert(spec_get(b, "args"@) == Some(JsonSpec::Arr(a.skip(1))));
        assert(spec_args_part(b) == a.skip(1));
    } else {
        assert(spec_args_part(b) == Seq::<JsonSpec>::empty());
        assert(a.skip(1) =~= Seq::<JsonSpec>::empty());
    }
    assert(spec_merged_command(b) =~= a);

    // Where A's result holds the rebuilt array.
    let whole = spec_convert_claude_to_opencode(b)->Obj_0;
    let head = seq![("type"@, spec_btoa_type(b)), ("enabled"@, JsonSpec::Bool(true))];
    lemma_lookup_no_match(head, "command"@);
    lemma_lookup_first_match(spec_btoa_command(b), "command"@, 0);
    lemma_btoa_get(b, "command"@);
}

} // verus!
