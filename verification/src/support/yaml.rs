//! The parts of a YAML document that the workflow checks read, and the
//! reading of YAML text into them.
use vstd::prelude::*;

verus! {

#[verifier::external_type_specification]
#[verifier::external_body]
pub struct ExYamlValue(serde_yaml::Value);

/// The document that the YAML text `text` holds, or `None` when `text` is not
/// valid YAML (as `serde_yaml` reads it).
pub uninterp spec fn yaml_document(text: Seq<char>) -> Option<Yaml>;

/// Carries a parsed `serde_yaml::Value` over into the document model, variant
/// for variant: strings, sequences and mappings keep their contents (mapping
/// entries in document order), `null` is `Null`, and booleans, numbers and
/// tagged values are `Other`.
#[verifier::external_body]
fn yaml_from_value(v: &serde_yaml::Value) -> Yaml {
    match v {
        serde_yaml::Value::Null => Yaml::Null,
        serde_yaml::Value::Bool(_) => Yaml::Other,
        serde_yaml::Value::Number(_) => Yaml::Other,
        serde_yaml::Value::String(s) => Yaml::String(s.clone()),
        serde_yaml::Value::Sequence(items) => Yaml::Sequence(items.iter().map(yaml_from_value).collect()),
        serde_yaml::Value::Mapping(m) => Yaml::Mapping(
            m.iter().map(|(k, x)| (yaml_from_value(k), yaml_from_value(x))).collect(),
        ),
        serde_yaml::Value::Tagged(_) => Yaml::Other,
    }
}

/// `serde_yaml::from_str::<serde_yaml::Value>` on `text`, carried over into
/// the document model: its result is named `yaml_document(text)`, a function
/// of the text alone. What the parse gives on given text is not stated.
#[verifier::external_body]
pub(crate) fn parse_yaml(text: &str) -> (r: Option<Yaml>)
    ensures
        r == yaml_document(text@),
{
    match serde_yaml::from_str::<serde_yaml::Value>(text) {
        Ok(v) => Some(yaml_from_value(&v)),
        Err(_) => None,
    }
}

/// A YAML node. Mappings keep their entries in document order. `null` (also
/// written `~` or left empty) is `Null`; booleans, numbers and tagged nodes
/// carry nothing the checks look at and are all `Other`.
pub enum Yaml {
    Null,
    Other,
    String(String),
    Sequence(Vec<Yaml>),
    Mapping(Vec<(Yaml, Yaml)>),
}

/// `k` is the string key `key`.
pub open spec fn is_key(k: Yaml, key: Seq<char>) -> bool {
    match k {
        Yaml::String(s) => s@ == key,
        _ => false,
    }
}

/// The value of the first entry whose key is the string `key`
/// (`Mapping::get(Value::String(key))`; parsed documents have unique keys).
pub open spec fn lookup(entries: Seq<(Yaml, Yaml)>, key: Seq<char>) -> Option<Yaml>
    decreases entries.len(),
{
    if entries.len() == 0 {
        None
    } else if is_key(entries[0].0, key) {
        Some(entries[0].1)
    } else {
        lookup(entries.drop_first(), key)
    }
}

/// The string held by `v`, if it is a string.
pub open spec fn as_text(v: Option<Yaml>) -> Option<Seq<char>> {
    match v {
        Some(Yaml::String(s)) => Some(s@),
        _ => None,
    }
}

proof fn lemma_lookup_skip(entries: Seq<(Yaml, Yaml)>, i: int, key: Seq<char>)
    requires
        0 <= i < entries.len(),
        !is_key(entries[i].0, key),
    ensures
        lookup(entries.skip(i), key) == lookup(entries.skip(i + 1), key),
{
    assert(entries.skip(i).drop_first() =~= entries.skip(i + 1));
}

/// Looks up a string key in the entries of a mapping.
pub fn get<'a>(entries: &'a Vec<(Yaml, Yaml)>, key: &str) -> (r: Option<&'a Yaml>)
    ensures
        match r {
            Some(v) => lookup(entries@, key@) == Some(*v),
            None => lookup(entries@, key@) is None,
        },
{
    let mut i: usize = 0;
    assert(entries@.skip(0) =~= entries@);
    while i < entries.len()
        invariant
            i <= entries@.len(),
            lookup(entries@, key@) == lookup(entries@.skip(i as int), key@),
        decreases entries@.len() - i,
    {
        let found = match &entries[i].0 {
            Yaml::String(s) => crate::text::str_eq(s.as_str(), key),
            _ => false,
        };
        if found {
            return Some(&entries[i].1);
        }
        proof {
            lemma_lookup_skip(entries@, i as int, key@);
        }
        i += 1;
    }
    None
}

} // verus!
