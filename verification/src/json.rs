//! An ordered JSON tree: the backend-agnostic shape of one raw server
//! definition and of whole backend documents.
//!
//! Numbers are kept losslessly: integers that fit in `i64` as [`Json::Int`],
//! any other JSON number as its literal text in [`Json::Num`]. Objects are
//! ordered sequences of key/value pairs; key lookup takes the first match.

use vstd::prelude::*;

verus! {

broadcast use vstd::std_specs::vec::group_vec_axioms;

/// One JSON value, as the library sees it.
#[derive(Debug, PartialEq)]
pub enum Json {
    Null,
    Bool(bool),
    /// A JSON number representable as a signed 64-bit integer.
    Int(i64),
    /// Any other JSON number, kept as its literal text.
    Num(String),
    Str(String),
    Arr(Vec<Json>),
    Obj(Vec<(String, Json)>),
}

/// The mathematical model of a [`Json`] value.
pub enum JsonSpec {
    Null,
    Bool(bool),
    Int(i64),
    Num(Seq<char>),
    Str(Seq<char>),
    Arr(Seq<JsonSpec>),
    Obj(Seq<(Seq<char>, JsonSpec)>),
}

/// The model of one tree node.
pub open spec fn view_of(j: Json) -> JsonSpec
    decreases j, 0nat,
{
    match j {
        Json::Null => JsonSpec::Null,
        Json::Bool(b) => JsonSpec::Bool(b),
        Json::Int(i) => JsonSpec::Int(i),
        Json::Num(s) => JsonSpec::Num(s@),
        Json::Str(s) => JsonSpec::Str(s@),
        Json::Arr(a) => {
            proof {
                assert(decreases_to!(j => a));
                assert(decreases_to!(a => a@));
            }
            JsonSpec::Arr(views_of_elems(a@))
        },
        Json::Obj(o) => {
            proof {
                assert(decreases_to!(j => o));
                assert(decreases_to!(o => o@));
            }
            JsonSpec::Obj(views_of_pairs(o@))
        },
    }
}

/// The models of an array's elements, in order.
pub open spec fn views_of_elems(l: Seq<Json>) -> Seq<JsonSpec>
    decreases l, 1nat,
{
    if l.len() == 0 {
        Seq::empty()
    } else {
        proof {
            assert(decreases_to!(l => l[l.len() - 1]));
        }
        views_of_elems(l.drop_last()).push(view_of(l.last()))
    }
}

/// The models of an object's key/value pairs, in order.
pub open spec fn views_of_pairs(l: Seq<(String, Json)>) -> Seq<(Seq<char>, JsonSpec)>
    decreases l, 1nat,
{
    if l.len() == 0 {
        Seq::empty()
    } else {
        proof {
            assert(decreases_to!(l => l[l.len() - 1]));
            assert(decreases_to!(l[l.len() - 1] => l[l.len() - 1].1));
        }
        views_of_pairs(l.drop_last()).push((l.last().0@, view_of(l.last().1)))
    }
}

impl View for Json {
    type V = JsonSpec;

    open spec fn view(&self) -> JsonSpec {
        view_of(*self)
    }
}

/// The element models are exactly the elements' models, position by position.
pub broadcast proof fn lemma_views_of_elems(l: Seq<Json>)
    ensures
        (#[trigger] views_of_elems(l)).len() == l.len(),
        forall|i: int| 0 <= i < l.len() ==> views_of_elems(l)[i] == l[i]@,
    decreases l.len(),
{
    if l.len() > 0 {
        lemma_views_of_elems(l.drop_last());
    }
}

/// The pair models are exactly the pairs' models, position by position.
pub broadcast proof fn lemma_views_of_pairs(l: Seq<(String, Json)>)
    ensures
        (#[trigger] views_of_pairs(l)).len() == l.len(),
        forall|i: int| 0 <= i < l.len() ==> views_of_pairs(l)[i] == (l[i].0@, l[i].1@),
    decreases l.len(),
{
    if l.len() > 0 {
        lemma_views_of_pairs(l.drop_last());
    }
}

/// The value under `key` among `l`, taking the first match.
pub open spec fn spec_lookup(l: Seq<(Seq<char>, JsonSpec)>, key: Seq<char>) -> Option<JsonSpec>
    decreases l.len(),
{
    if l.len() == 0 {
        None
    } else if l[0].0 == key {
        Some(l[0].1)
    } else {
        spec_lookup(l.drop_first(), key)
    }
}

/// The value under `key` of an object; `None` on any other node.
pub open spec fn spec_get(v: JsonSpec, key: Seq<char>) -> Option<JsonSpec> {
    match v {
        JsonSpec::Obj(l) => spec_lookup(l, key),
        _ => None,
    }
}

/// Whether an object holds `key`.
pub open spec fn spec_has(v: JsonSpec, key: Seq<char>) -> bool {
    spec_get(v, key) is Some
}

/// `l` with `v` under `key`: the first pair with that key is replaced in
/// place; with no such pair, `(key, v)` is appended.
pub open spec fn spec_upsert(
    l: Seq<(Seq<char>, JsonSpec)>,
    key: Seq<char>,
    v: JsonSpec,
) -> Seq<(Seq<char>, JsonSpec)>
    decreases l.len(),
{
    if l.len() == 0 {
        seq![(key, v)]
    } else if l[0].0 == key {
        seq![(key, v)] + l.drop_first()
    } else {
        seq![l[0]] + spec_upsert(l.drop_first(), key, v)
    }
}

/// `l` without its first pair under `key` (unchanged if the key is absent).
pub open spec fn spec_remove(
    l: Seq<(Seq<char>, JsonSpec)>,
    key: Seq<char>,
) -> Seq<(Seq<char>, JsonSpec)>
    decreases l.len(),
{
    if l.len() == 0 {
        l
    } else if l[0].0 == key {
        l.drop_first()
    } else {
        seq![l[0]] + spec_remove(l.drop_first(), key)
    }
}

/// Looking up a key in a concatenation tries the left part first.
pub proof fn lemma_lookup_concat(
    a: Seq<(Seq<char>, JsonSpec)>,
    b: Seq<(Seq<char>, JsonSpec)>,
    key: Seq<char>,
)
    ensures
        spec_lookup(a + b, key) == if spec_lookup(a, key) is Some {
            spec_lookup(a, key)
        } else {
            spec_lookup(b, key)
        },
    decreases a.len(),
{
    if a.len() == 0 {
        assert(a + b =~= b);
    } else {
        assert((a + b).drop_first() =~= a.drop_first() + b);
        lemma_lookup_concat(a.drop_first(), b, key);
    }
}

/// Relies on `str`'s `PartialEq`: equality of the two character sequences.
#[verifier::external_body]
pub fn str_eq(a: &str, b: &str) -> (r: bool)
    ensures
        r == (a@ == b@),
{
    a == b
}

impl Json {
    /// The value under `key`, where `self` is an object holding it.
    pub fn get<'a>(&'a self, key: &str) -> (r: Option<&'a Json>)
        ensures
            match spec_get(self@, key@) {
                Some(v) => r is Some && r->0@ == v,
                None => r is None,
            },
    {
        broadcast use lemma_views_of_pairs;

        match self {
            Json::Obj(o) => {
                let ghost l = views_of_pairs(o@);
                let mut i: usize = 0;
                while i < o.len()
                    invariant
                        0 <= i <= o.len(),
                        l == views_of_pairs(o@),
                        l.len() == o.len(),
                        forall|j: int| 0 <= j < i ==> l[j].0 != key@,
                        spec_get(self@, key@) == spec_lookup(l, key@),
                    decreases o.len() - i,
                {
                    let hit = str_eq(o[i].0.as_str(), key);
                    proof {
                        lemma_views_of_pairs(o@);
                        assert(l[i as int] == (o@[i as int].0@, o@[i as int].1@));
                    }
                    if hit {
                        proof {
                            lemma_lookup_first_match(l, key@, i as int);
                        }
                        return Some(&o[i].1);
                    }
                    i += 1;
                }
                proof {
                    lemma_lookup_no_match(l, key@);
                }
                None
            },
            _ => None,
        }
    }

    /// Whether `self` is an object holding `key`.
    pub fn has(&self, key: &str) -> (r: bool)
        ensures
            r == spec_has(self@, key@),
    {
        self.get(key).is_some()
    }

    /// The boolean a `Bool` node holds.
    pub fn as_bool(&self) -> (r: Option<bool>)
        ensures
            match self@ {
                JsonSpec::Bool(b) => r == Some(b),
                _ => r is None,
            },
    {
        match self {
            Json::Bool(b) => Some(*b),
            _ => None,
        }
    }

    /// The string a `Str` node holds.
    pub fn as_str_node<'a>(&'a self) -> (r: Option<&'a String>)
        ensures
            match self@ {
                JsonSpec::Str(s) => r is Some && r->0@ == s,
                _ => r is None,
            },
    {
        match self {
            Json::Str(s) => Some(s),
            _ => None,
        }
    }

    /// A full copy of the tree, node by node.
    pub fn deep_clone(&self) -> (r: Json)
        ensures
            r@ == self@,
        decreases self,
    {
        broadcast use lemma_views_of_elems, lemma_views_of_pairs;

        match self {
            Json::Null => Json::Null,
            Json::Bool(b) => Json::Bool(*b),
            Json::Int(i) => Json::Int(*i),
            Json::Num(s) => Json::Num(s.clone()),
            Json::Str(s) => Json::Str(s.clone()),
            Json::Arr(a) => {
                proof {
                    assert(decreases_to!(*self => *a));
                }
                let mut out: Vec<Json> = Vec::new();
                let mut i: usize = 0;
                while i < a.len()
                    invariant
                        0 <= i <= a.len(),
                        out@.len() == i,
                        forall|j: int| 0 <= j < i ==> out@[j]@ == a@[j]@,
                        decreases_to!(*self => *a),
                    decreases a.len() - i,
                {
                    proof {
                        assert(decreases_to!(*a => a[i as int]));
                    }
                    let c = a[i].deep_clone();
                    out.push(c);
                    i += 1;
                }
                proof {
                    assert(views_of_elems(out@) =~= views_of_elems(a@));
                }
                Json::Arr(out)
            },
            Json::Obj(o) => {
                proof {
                    assert(decreases_to!(*self => *o));
                }
                let mut out: Vec<(String, Json)> = Vec::new();
                let mut i: usize = 0;
                while i < o.len()
                    invariant
                        0 <= i <= o.len(),
                        out@.len() == i,
                        forall|j: int| 0 <= j < i ==> out@[j].0@ == o@[j].0@ && out@[j].1@
                            == o@[j].1@,
                        decreases_to!(*self => *o),
                    decreases o.len() - i,
                {
                    proof {
                        assert(decreases_to!(*o => o[i as int]));
                        assert(decreases_to!(o[i as int] => o[i as int].1));
                    }
                    let k = o[i].0.clone();
                    let c = o[i].1.deep_clone();
                    out.push((k, c));
                    i += 1;
                }
                proof {
                    assert(views_of_pairs(out@) =~= views_of_pairs(o@));
                }
                Json::Obj(out)
            },
        }
    }
}

/// The position of the first pair under `key`, if any.
pub fn pairs_find(o: &Vec<(String, Json)>, key: &str) -> (r: Option<usize>)
    ensures
        match r {
            Some(i) => 0 <= i < o@.len() && o@[i as int].0@ == key@ && (forall|j: int|
                0 <= j < i ==> o@[j].0@ != key@),
            None => forall|j: int| 0 <= j < o@.len() ==> o@[j].0@ != key@,
        },
{
    let mut i: usize = 0;
    while i < o.len()
        invariant
            0 <= i <= o.len(),
            forall|j: int| 0 <= j < i ==> o@[j].0@ != key@,
        decreases o.len() - i,
    {
        if str_eq(o[i].0.as_str(), key) {
            return Some(i);
        }
        i += 1;
    }
    None
}

/// Puts `val` under `key` among the pairs, replacing the first pair with that
/// key in place, or appending a new pair.
pub fn pairs_upsert(o: &mut Vec<(String, Json)>, key: String, val: Json)
    ensures
        views_of_pairs(final(o)@) == spec_upsert(views_of_pairs(old(o)@), key@, val@),
{
    let ghost l = views_of_pairs(old(o)@);
    proof {
        lemma_views_of_pairs(old(o)@);
    }
    match pairs_find(o, key.as_str()) {
        Some(i) => {
            proof {
                lemma_upsert_at(l, key@, val@, i as int);
            }
            o.remove(i);
            o.insert(i, (key, val));
            proof {
                lemma_views_of_pairs(o@);
                assert(views_of_pairs(o@) =~= l.update(i as int, (key@, val@)));
            }
        },
        None => {
            proof {
                lemma_upsert_absent(l, key@, val@);
            }
            o.push((key, val));
            proof {
                lemma_views_of_pairs(o@);
                assert(views_of_pairs(o@) =~= l.push((key@, val@)));
            }
        },
    }
}

/// Removes the first pair under `key`; reports whether one was there.
pub fn pairs_take_out(o: &mut Vec<(String, Json)>, key: &str) -> (r: bool)
    ensures
        r == (spec_lookup(views_of_pairs(old(o)@), key@) is Some),
        views_of_pairs(final(o)@) == spec_remove(views_of_pairs(old(o)@), key@),
{
    let ghost l = views_of_pairs(old(o)@);
    proof {
        lemma_views_of_pairs(old(o)@);
    }
    match pairs_find(o, key) {
        Some(i) => {
            proof {
                lemma_lookup_first_match(l, key@, i as int);
                lemma_remove_at(l, key@, i as int);
            }
            o.remove(i);
            proof {
                lemma_views_of_pairs(o@);
                assert(views_of_pairs(o@) =~= l.remove(i as int));
            }
            true
        },
        None => {
            proof {
                lemma_lookup_no_match(l, key@);
                lemma_remove_absent(l, key@);
            }
            false
        },
    }
}

/// Where the first match sits at `i`, the upsert is an update in place.
pub proof fn lemma_upsert_at(l: Seq<(Seq<char>, JsonSpec)>, key: Seq<char>, v: JsonSpec, i: int)
    requires
        0 <= i < l.len(),
        l[i].0 == key,
        forall|j: int| 0 <= j < i ==> l[j].0 != key,
    ensures
        spec_upsert(l, key, v) == l.update(i, (key, v)),
    decreases i,
{
    if i == 0 {
        assert(seq![(key, v)] + l.drop_first() =~= l.update(0, (key, v)));
    } else {
        assert(forall|j: int| 0 <= j < l.len() - 1 ==> l.drop_first()[j] == l[j + 1]);
        lemma_upsert_at(l.drop_first(), key, v, i - 1);
        assert(seq![l[0]] + l.drop_first().update(i - 1, (key, v)) =~= l.update(i, (key, v)));
    }
}

/// Without a match, the upsert is an append.
pub proof fn lemma_upsert_absent(l: Seq<(Seq<char>, JsonSpec)>, key: Seq<char>, v: JsonSpec)
    requires
        forall|j: int| 0 <= j < l.len() ==> l[j].0 != key,
    ensures
        spec_upsert(l, key, v) == l.push((key, v)),
    decreases l.len(),
{
    if l.len() == 0 {
        assert(seq![(key, v)] =~= l.push((key, v)));
    } else {
        assert(forall|j: int| 0 <= j < l.len() - 1 ==> l.drop_first()[j] == l[j + 1]);
        lemma_upsert_absent(l.drop_first(), key, v);
        assert(seq![l[0]] + l.drop_first().push((key, v)) =~= l.push((key, v)));
    }
}

/// Where the first match sits at `i`, the removal takes out position `i`.
pub proof fn lemma_remove_at(l: Seq<(Seq<char>, JsonSpec)>, key: Seq<char>, i: int)
    requires
        0 <= i < l.len(),
        l[i].0 == key,
        forall|j: int| 0 <= j < i ==> l[j].0 != key,
    ensures
        spec_remove(l, key) == l.remove(i),
    decreases i,
{
    if i == 0 {
        assert(l.drop_first() =~= l.remove(0));
    } else {
        assert(forall|j: int| 0 <= j < l.len() - 1 ==> l.drop_first()[j] == l[j + 1]);
        lemma_remove_at(l.drop_first(), key, i - 1);
        assert(seq![l[0]] + l.drop_first().remove(i - 1) =~= l.remove(i));
    }
}

/// Without a match, the removal changes nothing.
pub proof fn lemma_remove_absent(l: Seq<(Seq<char>, JsonSpec)>, key: Seq<char>)
    requires
        forall|j: int| 0 <= j < l.len() ==> l[j].0 != key,
    ensures
        spec_remove(l, key) == l,
    decreases l.len(),
{
    if l.len() > 0 {
        assert(forall|j: int| 0 <= j < l.len() - 1 ==> l.drop_first()[j] == l[j + 1]);
        lemma_remove_absent(l.drop_first(), key);
        assert(seq![l[0]] + l.drop_first() =~= l);
    }
}

/// With no match before position `i` and a match at `i`, the lookup yields
/// the value at `i`.
pub proof fn lemma_lookup_first_match(l: Seq<(Seq<char>, JsonSpec)>, key: Seq<char>, i: int)
    requires
        0 <= i < l.len(),
        l[i].0 == key,
        forall|j: int| 0 <= j < i ==> l[j].0 != key,
    ensures
        spec_lookup(l, key) == Some(l[i].1),
    decreases i,
{
    if i > 0 {
        assert(forall|j: int| 0 <= j < l.len() - 1 ==> l.drop_first()[j] == l[j + 1]);
        lemma_lookup_first_match(l.drop_first(), key, i - 1);
    }
}

/// With no match anywhere, the lookup yields nothing.
pub proof fn lemma_lookup_no_match(l: Seq<(Seq<char>, JsonSpec)>, key: Seq<char>)
    requires
        forall|j: int| 0 <= j < l.len() ==> l[j].0 != key,
    ensures
        spec_lookup(l, key) is None,
    decreases l.len(),
{
    if l.len() > 0 {
        assert(forall|j: int| 0 <= j < l.len() - 1 ==> l.drop_first()[j] == l[j + 1]);
        lemma_lookup_no_match(l.drop_first(), key);
    }
}

} // verus!
