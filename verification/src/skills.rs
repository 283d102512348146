//! The skills feature store: one JSON document listing skills, agents and
//! plugins, loaded and saved whole.
//!
//! A missing document is an empty configuration. Parsing is strict about
//! shapes: a skill needs a string `name`; its optional fields take a value of
//! the right type or null; unrecognized fields are ignored.

use vstd::prelude::*;

use crate::codec::{json_parse, json_text_of, parse_json, render_json};
use crate::errors::ConfigError;
use crate::json::{
    lemma_views_of_elems, lemma_views_of_pairs, spec_get, views_of_elems, views_of_pairs, Json,
    JsonSpec,
};

verus! {

/// One skill or agent: its name and optional metadata.
#[derive(Debug, Clone)]
pub struct SkillConfig {
    pub name: String,
    pub description: Option<String>,
    pub enabled: Option<bool>,
    pub source: Option<String>,
}

/// The whole skills document: the schema reference, the skills, the agents
/// and the plugin list.
#[derive(Debug, Clone)]
pub struct OhMyOpenCodeConfig {
    pub schema: Option<String>,
    pub skills: Vec<SkillConfig>,
    pub agents: Vec<SkillConfig>,
    pub plugins: Vec<String>,
}

/// The model of one skill.
pub struct SkillView {
    pub name: Seq<char>,
    pub description: Option<Seq<char>>,
    pub enabled: Option<bool>,
    pub source: Option<Seq<char>>,
}

/// The model of the skills document.
pub struct SkillsDocView {
    pub schema: Option<Seq<char>>,
    pub skills: Seq<SkillView>,
    pub agents: Seq<SkillView>,
    pub plugins: Seq<Seq<char>>,
}

/// The view of an optional string field.
pub open spec fn view_opt_string(s: Option<String>) -> Option<Seq<char>> {
    match s {
        Some(x) => Some(x@),
        None => None,
    }
}

impl View for SkillConfig {
    type V = SkillView;

    open spec fn view(&self) -> SkillView {
        SkillView {
            name: self.name@,
            description: view_opt_string(self.description),
            enabled: self.enabled,
            source: view_opt_string(self.source),
        }
    }
}

impl SkillConfig {
    /// A full copy, field by field.
    pub fn duplicate(&self) -> (r: SkillConfig)
        ensures
            r@ == self@,
    {
        SkillConfig {
            name: self.name.clone(),
            description: match &self.description {
                Some(d) => Some(d.clone()),
                None => None,
            },
            enabled: self.enabled,
            source: match &self.source {
                Some(x) => Some(x.clone()),
                None => None,
            },
        }
    }
}

/// The models of a skill list, in order.
pub open spec fn views_of_skills(l: Seq<SkillConfig>) -> Seq<SkillView> {
    l.map_values(|s: SkillConfig| s@)
}

/// The views of a string list, in order.
pub open spec fn views_of_strings(l: Seq<String>) -> Seq<Seq<char>> {
    l.map_values(|s: String| s@)
}

impl View for OhMyOpenCodeConfig {
    type V = SkillsDocView;

    open spec fn view(&self) -> SkillsDocView {
        SkillsDocView {
            schema: view_opt_string(self.schema),
            skills: views_of_skills(self.skills@),
            agents: views_of_skills(self.agents@),
            plugins: views_of_strings(self.plugins@),
        }
    }
}

/// An optional string field of an object: absent or null is nothing, a string
/// is itself, anything else is a shape error.
pub open spec fn opt_str_field(doc: JsonSpec, key: Seq<char>) -> Option<Option<Seq<char>>> {
    match spec_get(doc, key) {
        None => Some(None),
        Some(JsonSpec::Null) => Some(None),
        Some(JsonSpec::Str(s)) => Some(Some(s)),
        Some(_) => None,
    }
}

/// An optional boolean field of an object, as [`opt_str_field`].
pub open spec fn opt_bool_field(doc: JsonSpec, key: Seq<char>) -> Option<Option<bool>> {
    match spec_get(doc, key) {
        None => Some(None),
        Some(JsonSpec::Null) => Some(None),
        Some(JsonSpec::Bool(b)) => Some(Some(b)),
        Some(_) => None,
    }
}

/// A list-valued field of an object: absent is empty, an array is its
/// elements, anything else is a shape error.
pub open spec fn arr_field(doc: JsonSpec, key: Seq<char>) -> Option<Seq<JsonSpec>> {
    match spec_get(doc, key) {
        None => Some(Seq::empty()),
        Some(JsonSpec::Arr(a)) => Some(a),
        Some(_) => None,
    }
}

/// One skill parsed from its node: an object with a string `name` and
/// well-shaped optional fields, or a shape error.
pub open spec fn skill_of(v: JsonSpec) -> Option<SkillView> {
    if !(v is Obj) {
        None
    } else {
        match spec_get(v, "name"@) {
            Some(JsonSpec::Str(name)) => match (
                opt_str_field(v, "description"@),
                opt_bool_field(v, "enabled"@),
                opt_str_field(v, "source"@),
            ) {
                (Some(description), Some(enabled), Some(source)) => Some(
                    SkillView { name, description, enabled, source },
                ),
                _ => None,
            },
            _ => None,
        }
    }
}

/// A skill list parsed element by element; one bad element fails the list.
pub open spec fn skills_of(l: Seq<JsonSpec>) -> Option<Seq<SkillView>>
    decreases l.len(),
{
    if l.len() == 0 {
        Some(Seq::empty())
    } else {
        match (skills_of(l.drop_last()), skill_of(l.last())) {
            (Some(init), Some(last)) => Some(init.push(last)),
            _ => None,
        }
    }
}

/// A string list parsed element by element; one non-string fails the list.
pub open spec fn strings_of(l: Seq<JsonSpec>) -> Option<Seq<Seq<char>>>
    decreases l.len(),
{
    if l.len() == 0 {
        Some(Seq::empty())
    } else {
        match (strings_of(l.drop_last()), l.last()) {
            (Some(init), JsonSpec::Str(s)) => Some(init.push(s)),
            _ => None,
        }
    }
}

/// The whole skills document parsed from its tree, or a shape error.
pub open spec fn skills_doc_of(doc: JsonSpec) -> Option<SkillsDocView> {
    if !(doc is Obj) {
        None
    } else {
        match (opt_str_field(doc, "$schema"@), arr_field(doc, "skills"@), arr_field(
            doc,
            "agents"@,
        ), arr_field(doc, "plugins"@)) {
            (Some(schema), Some(sk), Some(ag), Some(pl)) => match (
                skills_of(sk),
                skills_of(ag),
                strings_of(pl),
            ) {
                (Some(skills), Some(agents), Some(plugins)) => Some(
                    SkillsDocView { schema, skills, agents, plugins },
                ),
                _ => None,
            },
            _ => None,
        }
    }
}

/// The empty configuration, for a missing document.
pub open spec fn empty_skills_doc() -> SkillsDocView {
    SkillsDocView {
        schema: None,
        skills: Seq::empty(),
        agents: Seq::empty(),
        plugins: Seq::empty(),
    }
}

/// An optional string field's value node: the string, or null.
fn opt_str_node(v: &Option<String>) -> (r: Json)
    ensures
        r@ == match view_opt_string(*v) {
            Some(s) => JsonSpec::Str(s),
            None => JsonSpec::Null,
        },
{
    match v {
        Some(s) => Json::Str(s.clone()),
        None => Json::Null,
    }
}

/// One skill's tree: its four fields in declaration order, absent metadata
/// written as null.
pub open spec fn spec_skill_node(s: SkillView) -> JsonSpec {
    JsonSpec::Obj(
        seq![
            ("name"@, JsonSpec::Str(s.name)),
            (
                "description"@,
                match s.description {
                    Some(d) => JsonSpec::Str(d),
                    None => JsonSpec::Null,
                },
            ),
            (
                "enabled"@,
                match s.enabled {
                    Some(b) => JsonSpec::Bool(b),
                    None => JsonSpec::Null,
                },
            ),
            (
                "source"@,
                match s.source {
                    Some(x) => JsonSpec::Str(x),
                    None => JsonSpec::Null,
                },
            ),
        ],
    )
}

/// The skills document's tree: schema, skills, agents and plugins in
/// declaration order.
pub open spec fn spec_skills_doc_node(c: SkillsDocView) -> JsonSpec {
    JsonSpec::Obj(
        seq![
            (
                "$schema"@,
                match c.schema {
                    Some(s) => JsonSpec::Str(s),
                    None => JsonSpec::Null,
                },
            ),
            ("skills"@, JsonSpec::Arr(c.skills.map_values(|s: SkillView| spec_skill_node(s)))),
            ("agents"@, JsonSpec::Arr(c.agents.map_values(|s: SkillView| spec_skill_node(s)))),
            (
                "plugins"@,
                JsonSpec::Arr(c.plugins.map_values(|p: Seq<char>| JsonSpec::Str(p))),
            ),
        ],
    )
}

/// One skill's tree node.
fn skill_node(s: &SkillConfig) -> (r: Json)
    ensures
        r@ == spec_skill_node(s@),
{
    let mut pairs: Vec<(String, Json)> = Vec::new();
    let p0 = ("name".to_owned(), Json::Str(s.name.clone()));
    pairs.push(p0);
    let p1 = ("description".to_owned(), opt_str_node(&s.description));
    pairs.push(p1);
    let p2 = (
        "enabled".to_owned(),
        match s.enabled {
            Some(b) => Json::Bool(b),
            None => Json::Null,
        },
    );
    pairs.push(p2);
    let p3 = ("source".to_owned(), opt_str_node(&s.source));
    pairs.push(p3);
    let ghost pv = pairs@;
    let r = Json::Obj(pairs);
    proof {
        lemma_views_of_pairs(pv);
        assert(views_of_pairs(pv) =~= spec_skill_node(s@)->Obj_0);
    }
    r
}

/// The nodes of a skill list, in order.
fn skill_nodes(l: &Vec<SkillConfig>) -> (r: Json)
    ensures
        r@ == JsonSpec::Arr(views_of_skills(l@).map_values(|s: SkillView| spec_skill_node(s))),
{
    let mut out: Vec<Json> = Vec::new();
    let mut i: usize = 0;
    while i < l.len()
        invariant
            0 <= i <= l@.len(),
            out@.len() == i,
            forall|j: int| 0 <= j < i ==> out@[j]@ == spec_skill_node(l@[j]@),
        decreases l.len() - i,
    {
        let n = skill_node(&l[i]);
        out.push(n);
        i += 1;
    }
    let ghost ov = out@;
    let r = Json::Arr(out);
    proof {
        lemma_views_of_elems(ov);
        assert(views_of_elems(ov) =~= views_of_skills(l@).map_values(
            |s: SkillView| spec_skill_node(s),
        ));
    }
    r
}

/// The nodes of a plugin list, in order.
fn string_nodes(l: &Vec<String>) -> (r: Json)
    ensures
        r@ == JsonSpec::Arr(views_of_strings(l@).map_values(|p: Seq<char>| JsonSpec::Str(p))),
{
    let mut out: Vec<Json> = Vec::new();
    let mut i: usize = 0;
    while i < l.len()
        invariant
            0 <= i <= l@.len(),
            out@.len() == i,
            forall|j: int| 0 <= j < i ==> out@[j]@ == JsonSpec::Str(l@[j]@),
        decreases l.len() - i,
    {
        let n = Json::Str(l[i].clone());
        out.push(n);
        i += 1;
    }
    let ghost ov = out@;
    let r = Json::Arr(out);
    proof {
        lemma_views_of_elems(ov);
        assert(views_of_elems(ov) =~= views_of_strings(l@).map_values(
            |p: Seq<char>| JsonSpec::Str(p),
        ));
    }
    r
}

/// Renders the configuration as the document text to write back.
pub fn save_skills_config(config: &OhMyOpenCodeConfig) -> (r: String)
    ensures
        r@ == json_text_of(spec_skills_doc_node(config@)),
{
    let mut pairs: Vec<(String, Json)> = Vec::new();
    let p0 = ("$schema".to_owned(), opt_str_node(&config.schema));
    pairs.push(p0);
    let p1 = ("skills".to_owned(), skill_nodes(&config.skills));
    pairs.push(p1);
    let p2 = ("agents".to_owned(), skill_nodes(&config.agents));
    pairs.push(p2);
    let p3 = ("plugins".to_owned(), string_nodes(&config.plugins));
    pairs.push(p3);
    let ghost pv = pairs@;
    let doc = Json::Obj(pairs);
    proof {
        lemma_views_of_pairs(pv);
        assert(views_of_pairs(pv) =~= spec_skills_doc_node(config@)->Obj_0);
    }
    render_json(&doc)
}

/// One optional string field read from an object node.
fn read_opt_str(doc: &Json, key: &str) -> (r: Result<Option<String>, ()>)
    ensures
        match opt_str_field(doc@, key@) {
            Some(f) => r is Ok && view_opt_string(r->Ok_0) == f,
            None => r is Err,
        },
{
    match doc.get(key) {
        None => Ok(None),
        Some(v) => match v {
            Json::Null => Ok(None),
            Json::Str(s) => Ok(Some(s.clone())),
            _ => Err(()),
        },
    }
}

/// One optional boolean field read from an object node.
fn read_opt_bool(doc: &Json, key: &str) -> (r: Result<Option<bool>, ()>)
    ensures
        match opt_bool_field(doc@, key@) {
            Some(f) => r is Ok && r->Ok_0 == f,
            None => r is Err,
        },
{
    match doc.get(key) {
        None => Ok(None),
        Some(v) => match v {
            Json::Null => Ok(None),
            Json::Bool(b) => Ok(Some(*b)),
            _ => Err(()),
        },
    }
}

/// One skill read from its node.
fn read_skill(v: &Json) -> (r: Result<SkillConfig, ()>)
    ensures
        match skill_of(v@) {
            Some(s) => r is Ok && r->Ok_0@ == s,
            None => r is Err,
        },
{
    let is_obj = match v {
        Json::Obj(_) => true,
        _ => false,
    };
    if !is_obj {
        return Err(());
    }
    let name = match v.get("name") {
        Some(n) => match n.as_str_node() {
            Some(s) => s.clone(),
            None => {
                return Err(());
            },
        },
        None => {
            return Err(());
        },
    };
    let description = match read_opt_str(v, "description") {
        Ok(d) => d,
        Err(_) => {
            return Err(());
        },
    };
    let enabled = match read_opt_bool(v, "enabled") {
        Ok(e) => e,
        Err(_) => {
            return Err(());
        },
    };
    let source = match read_opt_str(v, "source") {
        Ok(s) => s,
        Err(_) => {
            return Err(());
        },
    };
    Ok(SkillConfig { name, description, enabled, source })
}

/// A skill list read from its array nodes.
fn read_skills(l: &Vec<Json>) -> (r: Result<Vec<SkillConfig>, ()>)
    ensures
        match skills_of(views_of_elems(l@)) {
            Some(s) => r is Ok && views_of_skills(r->Ok_0@) == s,
            None => r is Err,
        },
{
    let ghost lv = views_of_elems(l@);
    proof {
        lemma_views_of_elems(l@);
        assert(lv.take(0) =~= Seq::<JsonSpec>::empty());
    }
    let mut out: Vec<SkillConfig> = Vec::new();
    let mut i: usize = 0;
    while i < l.len()
        invariant
            0 <= i <= l@.len(),
            lv == views_of_elems(l@),
            lv.len() == l@.len(),
            forall|j: int| 0 <= j < l@.len() ==> lv[j] == l@[j]@,
            skills_of(lv.take(i as int)) == Some(views_of_skills(out@)),
        decreases l.len() - i,
    {
        let ghost out0 = out@;
        let s = match read_skill(&l[i]) {
            Ok(s) => s,
            Err(_) => {
                proof {
                    lemma_skills_of_prefix_fails(lv, i as int);
                }
                return Err(());
            },
        };
        out.push(s);
        proof {
            assert(lv.take(i as int + 1).drop_last() =~= lv.take(i as int));
            assert(lv.take(i as int + 1).last() == lv[i as int]);
            assert(views_of_skills(out@) =~= views_of_skills(out0).push(s@));
        }
        i += 1;
    }
    proof {
        assert(lv.take(l@.len() as int) =~= lv);
    }
    Ok(out)
}

/// A list with one bad element parses to nothing, whatever follows.
proof fn lemma_skills_of_prefix_fails(l: Seq<JsonSpec>, i: int)
    requires
        0 <= i < l.len(),
        skill_of(l[i]) is None,
    ensures
        skills_of(l) is None,
    decreases l.len(),
{
    if l.len() > 0 {
        if i == l.len() - 1 {
        } else {
            lemma_skills_of_prefix_fails(l.drop_last(), i);
        }
    }
}

/// A string list read from its array nodes.
fn read_strings(l: &Vec<Json>) -> (r: Result<Vec<String>, ()>)
    ensures
        match strings_of(views_of_elems(l@)) {
            Some(s) => r is Ok && views_of_strings(r->Ok_0@) == s,
            None => r is Err,
        },
{
    let ghost lv = views_of_elems(l@);
    proof {
        lemma_views_of_elems(l@);
        assert(lv.take(0) =~= Seq::<JsonSpec>::empty());
    }
    let mut out: Vec<String> = Vec::new();
    let mut i: usize = 0;
    while i < l.len()
        invariant
            0 <= i <= l@.len(),
            lv == views_of_elems(l@),
            lv.len() == l@.len(),
            forall|j: int| 0 <= j < l@.len() ==> lv[j] == l@[j]@,
            strings_of(lv.take(i as int)) == Some(views_of_strings(out@)),
        decreases l.len() - i,
    {
        let ghost out0 = out@;
        let s = match l[i].as_str_node() {
            Some(s) => s.clone(),
            None => {
                proof {
                    lemma_strings_of_prefix_fails(lv, i as int);
                }
                return Err(());
            },
        };
        out.push(s);
        proof {
            assert(lv.take(i as int + 1).drop_last() =~= lv.take(i as int));
            assert(lv.take(i as int + 1).last() == lv[i as int]);
            assert(views_of_strings(out@) =~= views_of_strings(out0).push(s@));
        }
        i += 1;
    }
    proof {
        assert(lv.take(l@.len() as int) =~= lv);
    }
    Ok(out)
}

/// A list with one non-string parses to nothing, whatever follows.
proof fn lemma_strings_of_prefix_fails(l: Seq<JsonSpec>, i: int)
    requires
        0 <= i < l.len(),
        !(l[i] is Str),
    ensures
        strings_of(l) is None,
    decreases l.len(),
{
    if l.len() > 0 {
        if i == l.len() - 1 {
        } else {
            lemma_strings_of_prefix_fails(l.drop_last(), i);
        }
    }
}

/// One list-valued field's element nodes.
fn read_arr_field<'a>(doc: &'a Json, key: &str, empty: &'a Vec<Json>) -> (r: Result<
    &'a Vec<Json>,
    (),
>)
    requires
        empty@.len() == 0,
    ensures
        match arr_field(doc@, key@) {
            Some(a) => r is Ok && views_of_elems(r->Ok_0@) == a,
            None => r is Err,
        },
{
    proof {
        lemma_views_of_elems(empty@);
        assert(views_of_elems(empty@) =~= Seq::<JsonSpec>::empty());
    }
    match doc.get(key) {
        None => Ok(empty),
        Some(v) => match v {
            Json::Arr(a) => {
                proof {
                    lemma_views_of_elems(a@);
                }
                Ok(a)
            },
            _ => Err(()),
        },
    }
}

/// Loads the skills configuration from its document text. A missing file is
/// the empty configuration; malformed text or an ill-shaped document is a
/// parse failure.
pub fn get_skills_config(text: Option<&str>) -> (r: Result<OhMyOpenCodeConfig, ConfigError>)
    ensures
        text is None ==> r is Ok && r->Ok_0@ == empty_skills_doc(),
        text is Some ==> ((r is Ok <==> json_parse(text->0@) is Some && skills_doc_of(
            json_parse(text->0@)->0,
        ) is Some) && (r is Ok ==> r->Ok_0@ == skills_doc_of(json_parse(text->0@)->0)->0)),
        r is Err ==> r->Err_0 is ParseError,
{
    let t = match text {
        None => {
            let empty = OhMyOpenCodeConfig {
                schema: None,
                skills: Vec::new(),
                agents: Vec::new(),
                plugins: Vec::new(),
            };
            proof {
                assert(views_of_skills(Seq::<SkillConfig>::empty())
                    =~= Seq::<SkillView>::empty());
                assert(views_of_strings(Seq::<String>::empty()) =~= Seq::<Seq<char>>::empty());
            }
            return Ok(empty);
        },
        Some(t) => t,
    };
    let doc = match parse_json(t) {
        Ok(v) => v,
        Err(e) => {
            return Err(ConfigError::ParseError(e));
        },
    };
    let is_obj = match &doc {
        Json::Obj(_) => true,
        _ => false,
    };
    if !is_obj {
        return Err(ConfigError::ParseError("the skills document is not an object".to_owned()));
    }
    let schema = match read_opt_str(&doc, "$schema") {
        Ok(s) => s,
        Err(_) => {
            return Err(ConfigError::ParseError("the skills document is ill-shaped".to_owned()));
        },
    };
    let no_elems: Vec<Json> = Vec::new();
    let skills = match read_arr_field(&doc, "skills", &no_elems) {
        Ok(a) => match read_skills(a) {
            Ok(s) => s,
            Err(_) => {
                return Err(
                    ConfigError::ParseError("the skills document is ill-shaped".to_owned()),
                );
            },
        },
        Err(_) => {
            return Err(ConfigError::ParseError("the skills document is ill-shaped".to_owned()));
        },
    };
    let agents = match read_arr_field(&doc, "agents", &no_elems) {
        Ok(a) => match read_skills(a) {
            Ok(s) => s,
            Err(_) => {
                return Err(
                    ConfigError::ParseError("the skills document is ill-shaped".to_owned()),
                );
            },
        },
        Err(_) => {
            return Err(ConfigError::ParseError("the skills document is ill-shaped".to_owned()));
        },
    };
    let plugins = match read_arr_field(&doc, "plugins", &no_elems) {
        Ok(a) => match read_strings(a) {
            Ok(s) => s,
            Err(_) => {
                return Err(
                    ConfigError::ParseError("the skills document is ill-shaped".to_owned()),
                );
            },
        },
        Err(_) => {
            return Err(ConfigError::ParseError("the skills document is ill-shaped".to_owned()));
        },
    };
    Ok(OhMyOpenCodeConfig { schema, skills, agents, plugins })
}

/// Adds one skill, enabled, to the configuration read from `text`; returns
/// the document text to write back.
pub fn add_skill(
    name: String,
    description: Option<String>,
    source: String,
    text: Option<&str>,
) -> (r: Result<String, ConfigError>)
    ensures
        r is Ok <==> (text is None || (json_parse(text->0@) is Some && skills_doc_of(
            json_parse(text->0@)->0,
        ) is Some)),
        r is Ok ==> ({
            let cfg = if text is None {
                empty_skills_doc()
            } else {
                skills_doc_of(json_parse(text->0@)->0)->0
            };
            let added = SkillView {
                name: name@,
                description: opt_str_view_owned(description),
                enabled: Some(true),
                source: Some(source@),
            };
            r->Ok_0@ == json_text_of(
                spec_skills_doc_node(
                    SkillsDocView { skills: cfg.skills.push(added), ..cfg },
                ),
            )
        }),
        r is Err ==> r->Err_0 is ParseError,
{
    let mut config = match get_skills_config(text) {
        Ok(c) => c,
        Err(e) => {
            return Err(e);
        },
    };
    let skill = SkillConfig { name, description, enabled: Some(true), source: Some(source) };
    let ghost s0 = config.skills@;
    config.skills.push(skill);
    proof {
        assert(views_of_skills(config.skills@) =~= views_of_skills(s0).push(
            config.skills@.last()@,
        ));
    }
    Ok(save_skills_config(&config))
}

/// The view of an optional owned string, for contracts over moved arguments.
pub open spec fn opt_str_view_owned(t: Option<String>) -> Option<Seq<char>> {
    match t {
        Some(s) => Some(s@),
        None => None,
    }
}

/// The skill list without the skills of one name.
pub open spec fn spec_retain_skills(l: Seq<SkillView>, name: Seq<char>) -> Seq<SkillView>
    decreases l.len(),
{
    if l.len() == 0 {
        l
    } else if l[0].name == name {
        spec_retain_skills(l.drop_first(), name)
    } else {
        seq![l[0]] + spec_retain_skills(l.drop_first(), name)
    }
}

/// Removes every skill of one name from the configuration read from `text`;
/// returns the document text to write back.
pub fn remove_skill(name: &str, text: Option<&str>) -> (r: Result<String, ConfigError>)
    ensures
        r is Ok <==> (text is None || (json_parse(text->0@) is Some && skills_doc_of(
            json_parse(text->0@)->0,
        ) is Some)),
        r is Ok ==> ({
            let cfg = if text is None {
                empty_skills_doc()
            } else {
                skills_doc_of(json_parse(text->0@)->0)->0
            };
            r->Ok_0@ == json_text_of(
                spec_skills_doc_node(
                    SkillsDocView { skills: spec_retain_skills(cfg.skills, name@), ..cfg },
                ),
            )
        }),
        r is Err ==> r->Err_0 is ParseError,
{
    let mut config = match get_skills_config(text) {
        Ok(c) => c,
        Err(e) => {
            return Err(e);
        },
    };
    let ghost s0 = views_of_skills(config.skills@);
    let ghost cfg0 = config@;
    let mut kept: Vec<SkillConfig> = Vec::new();
    let mut i: usize = 0;
    proof {
        assert(s0.skip(0) =~= s0);
        assert(views_of_skills(kept@) =~= Seq::<SkillView>::empty());
    }
    while i < config.skills.len()
        invariant
            0 <= i <= config.skills@.len(),
            cfg0 == config@,
            text is Some ==> json_parse(text->0@) is Some && skills_doc_of(
                json_parse(text->0@)->0,
            ) is Some,
            cfg0 == (if text is None {
                empty_skills_doc()
            } else {
                skills_doc_of(json_parse(text->0@)->0)->0
            }),
            s0 == views_of_skills(config.skills@),
            s0.len() == config.skills@.len(),
            forall|j: int| 0 <= j < config.skills@.len() ==> s0[j] == config.skills@[j]@,
            spec_retain_skills(s0, name@) == views_of_skills(kept@) + spec_retain_skills(
                s0.skip(i as int),
                name@,
            ),
        decreases config.skills.len() - i,
    {
        let ghost k0 = views_of_skills(kept@);
        let keep = !crate::json::str_eq(config.skills[i].name.as_str(), name);
        proof {
            assert(s0.skip(i as int).drop_first() =~= s0.skip(i as int + 1));
            assert(s0.skip(i as int)[0] == s0[i as int]);
        }
        if keep {
            let s = config.skills[i].duplicate();
            kept.push(s);
            proof {
                assert(views_of_skills(kept@) =~= k0.push(kept@.last()@));
                assert(kept@.last()@ == s0[i as int]);
                assert(k0 + (seq![s0[i as int]] + spec_retain_skills(s0.skip(i as int + 1), name@))
                    =~= views_of_skills(kept@) + spec_retain_skills(s0.skip(i as int + 1), name@));
            }
        }
        i += 1;
    }
    proof {
        assert(s0.skip(config.skills@.len() as int) =~= Seq::<SkillView>::empty());
        assert(views_of_skills(kept@) + spec_retain_skills(
            Seq::<SkillView>::empty(),
            name@,
        ) =~= views_of_skills(kept@));
    }
    config.skills = kept;
    Ok(save_skills_config(&config))
}

/// The skill list with the first skill of one name set to `enabled`;
/// unchanged where no skill has the name.
pub open spec fn spec_toggle_skills(
    l: Seq<SkillView>,
    name: Seq<char>,
    enabled: bool,
) -> Seq<SkillView>
    decreases l.len(),
{
    if l.len() == 0 {
        l
    } else if l[0].name == name {
        seq![SkillView { enabled: Some(enabled), ..l[0] }] + l.drop_first()
    } else {
        seq![l[0]] + spec_toggle_skills(l.drop_first(), name, enabled)
    }
}

/// Sets the first skill of one name to `enabled` in the configuration read
/// from `text`; returns the document text to write back.
pub fn toggle_skill(name: &str, enabled: bool, text: Option<&str>) -> (r: Result<
    String,
    ConfigError,
>)
    ensures
        r is Ok <==> (text is None || (json_parse(text->0@) is Some && skills_doc_of(
            json_parse(text->0@)->0,
        ) is Some)),
        r is Ok ==> ({
            let cfg = if text is None {
                empty_skills_doc()
            } else {
                skills_doc_of(json_parse(text->0@)->0)->0
            };
            r->Ok_0@ == json_text_of(
                spec_skills_doc_node(
                    SkillsDocView {
                        skills: spec_toggle_skills(cfg.skills, name@, enabled),
                        ..cfg
                    },
                ),
            )
        }),
        r is Err ==> r->Err_0 is ParseError,
{
    let mut config = match get_skills_config(text) {
        Ok(c) => c,
        Err(e) => {
            return Err(e);
        },
    };
    let ghost s0 = views_of_skills(config.skills@);
    let ghost cfg0 = config@;
    let mut i: usize = 0;
    proof {
        assert(s0.skip(0) =~= s0);
    }
    while i < config.skills.len()
        invariant
            0 <= i <= config.skills@.len(),
            cfg0 == config@,
            text is Some ==> json_parse(text->0@) is Some && skills_doc_of(
                json_parse(text->0@)->0,
            ) is Some,
            cfg0 == (if text is None {
                empty_skills_doc()
            } else {
                skills_doc_of(json_parse(text->0@)->0)->0
            }),
            s0 == views_of_skills(config.skills@),
            s0.len() == config.skills@.len(),
            forall|j: int| 0 <= j < config.skills@.len() ==> s0[j] == config.skills@[j]@,
            forall|j: int| 0 <= j < i ==> s0[j].name != name@,
        decreases config.skills.len() - i,
    {
        if crate::json::str_eq(config.skills[i].name.as_str(), name) {
            let mut s = config.skills.remove(i);
            s.enabled = Some(enabled);
            config.skills.insert(i, s);
            proof {
                lemma_toggle_at(s0, name@, enabled, i as int);
                assert(views_of_skills(config.skills@) =~= s0.update(
                    i as int,
                    SkillView { enabled: Some(enabled), ..s0[i as int] },
                ));
            }
            return Ok(save_skills_config(&config));
        }
        i += 1;
    }
    proof {
        lemma_toggle_absent(s0, name@, enabled);
    }
    Ok(save_skills_config(&config))
}

/// Where the first match sits at `i`, the toggle is an update in place.
proof fn lemma_toggle_at(l: Seq<SkillView>, name: Seq<char>, enabled: bool, i: int)
    requires
        0 <= i < l.len(),
        l[i].name == name,
        forall|j: int| 0 <= j < i ==> l[j].name != name,
    ensures
        spec_toggle_skills(l, name, enabled) == l.update(
            i,
            SkillView { enabled: Some(enabled), ..l[i] },
        ),
    decreases i,
{
    if i == 0 {
        assert(seq![SkillView { enabled: Some(enabled), ..l[0] }] + l.drop_first() =~= l.update(
            0,
            SkillView { enabled: Some(enabled), ..l[0] },
        ));
    } else {
        assert(forall|j: int| 0 <= j < l.len() - 1 ==> l.drop_first()[j] == l[j + 1]);
        lemma_toggle_at(l.drop_first(), name, enabled, i - 1);
        assert(seq![l[0]] + l.drop_first().update(
            i - 1,
            SkillView { enabled: Some(enabled), ..l[i] },
        ) =~= l.update(i, SkillView { enabled: Some(enabled), ..l[i] }));
    }
}

/// Without a match, the toggle changes nothing.
proof fn lemma_toggle_absent(l: Seq<SkillView>, name: Seq<char>, enabled: bool)
    requires
        forall|j: int| 0 <= j < l.len() ==> l[j].name != name,
    ensures
        spec_toggle_skills(l, name, enabled) == l,
    decreases l.len(),
{
    if l.len() > 0 {
        assert(forall|j: int| 0 <= j < l.len() - 1 ==> l.drop_first()[j] == l[j + 1]);
        lemma_toggle_absent(l.drop_first(), name, enabled);
        assert(seq![l[0]] + l.drop_first() =~= l);
    }
}

} // verus!
