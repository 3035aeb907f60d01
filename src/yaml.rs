use vstd::prelude::*;

verus! {

/// A YAML document as plain values.
///
/// Numbers that do not fit an `i64` and any other node this library has no
/// use for read as `Other`.
#[derive(Debug)]
pub enum Yaml {
    Null,
    Bool(bool),
    Int(i64),
    Str(String),
    List(Vec<Yaml>),
    Mapping(Vec<(Yaml, Yaml)>),
    Other,
}

#[verifier::external_type_specification]
#[verifier::external_body]
pub struct ExYamlValue(serde_yaml::Value);

/// The document that YAML text denotes, or `None` where the text is not YAML.
pub uninterp spec fn yaml_parsed(text: Seq<char>) -> Option<Yaml>;

/// The YAML text of a document, or `None` where it cannot be written.
pub uninterp spec fn yaml_emitted(doc: Yaml) -> Option<Seq<char>>;

/// Relies on serde_yaml::from_str: reads YAML text into a document tree, or
/// fails on text that is not YAML.
#[verifier::external_body]
pub(crate) fn parse_yaml(text: &str) -> (r: Option<Yaml>)
    ensures
        r == yaml_parsed(text@),
{
    serde_yaml::from_str::<serde_yaml::Value>(text).ok().map(yaml_from_value)
}

/// Converts serde_yaml's document tree into `Yaml`, node for node.
#[verifier::external_body]
fn yaml_from_value(v: serde_yaml::Value) -> Yaml {
    match v {
        serde_yaml::Value::Null => Yaml::Null,
        serde_yaml::Value::Bool(b) => Yaml::Bool(b),
        serde_yaml::Value::Number(n) => n.as_i64().map_or(Yaml::Other, Yaml::Int),
        serde_yaml::Value::String(s) => Yaml::Str(s),
        serde_yaml::Value::Sequence(items) => Yaml::List(items.into_iter().map(yaml_from_value).collect()),
        serde_yaml::Value::Mapping(m) => Yaml::Mapping(
            m.into_iter().map(|(k, v)| (yaml_from_value(k), yaml_from_value(v))).collect(),
        ),
        serde_yaml::Value::Tagged(t) => yaml_from_value(t.value),
    }
}

/// Relies on serde_yaml::to_string: writes a document tree as YAML text.
#[verifier::external_body]
pub(crate) fn emit_yaml(doc: &Yaml) -> (r: Option<String>)
    ensures
        match r {
            Some(s) => yaml_emitted(*doc) == Some(s@),
            None => yaml_emitted(*doc) is None,
        },
{
    serde_yaml::to_string(&yaml_to_value(doc)).ok()
}

/// Converts a `Yaml` tree into serde_yaml's document tree, node for node.
#[verifier::external_body]
fn yaml_to_value(doc: &Yaml) -> serde_yaml::Value {
    match doc {
        Yaml::Null | Yaml::Other => serde_yaml::Value::Null,
        Yaml::Bool(b) => serde_yaml::Value::Bool(*b),
        Yaml::Int(i) => serde_yaml::Value::Number((*i).into()),
        Yaml::Str(s) => serde_yaml::Value::String(s.clone()),
        Yaml::List(items) => serde_yaml::Value::Sequence(items.iter().map(yaml_to_value).collect()),
        Yaml::Mapping(entries) => serde_yaml::Value::Mapping(
            entries.iter().map(|(k, v)| (yaml_to_value(k), yaml_to_value(v))).collect(),
        ),
    }
}

/// `key` is the string `name`.
pub open spec fn is_key(key: Yaml, name: Seq<char>) -> bool {
    match key {
        Yaml::Str(s) => s@ == name,
        _ => false,
    }
}

/// The value under the first key of `entries` that reads `name`.
pub open spec fn lookup(entries: Seq<(Yaml, Yaml)>, name: Seq<char>) -> Option<Yaml> {
    if exists|i: int|
        0 <= i < entries.len() && is_key(#[trigger] entries[i].0, name) && forall|j: int|
            0 <= j < i ==> !is_key(#[trigger] entries[j].0, name)
    {
        let i = choose|i: int|
            0 <= i < entries.len() && is_key(#[trigger] entries[i].0, name) && forall|j: int|
                0 <= j < i ==> !is_key(#[trigger] entries[j].0, name);
        Some(entries[i].1)
    } else {
        None
    }
}

/// The value under `name` in a mapping, if the mapping holds that key.
pub fn get<'a>(entries: &'a Vec<(Yaml, Yaml)>, name: &str) -> (r: Option<&'a Yaml>)
    ensures
        match r {
            Some(v) => lookup(entries@, name@) == Some(*v),
            None => lookup(entries@, name@) is None,
        },
{
    let wanted = name.to_owned();
    let mut i: usize = 0;
    while i < entries.len()
        invariant
            i <= entries@.len(),
            wanted@ == name@,
            forall|j: int| 0 <= j < i ==> !is_key(#[trigger] entries@[j].0, name@),
        decreases entries@.len() - i,
    {
        let hit = match &entries[i].0 {
            Yaml::Str(s) => *s == wanted,
            _ => false,
        };
        if hit {
            proof {
                assert(is_key(entries@[i as int].0, name@));
                let k = choose|k: int|
                    0 <= k < entries@.len() && is_key(#[trigger] entries@[k].0, name@) && forall|
                        j: int,
                    | 0 <= j < k ==> !is_key(#[trigger] entries@[j].0, name@);
                if k < i {
                } else if k > i {
                    assert(!is_key(entries@[i as int].0, name@));
                }
            }
            return Some(&entries[i].1);
        }
        i = i + 1;
    }
    None
}

} // verus!
