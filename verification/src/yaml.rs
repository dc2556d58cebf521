//! A plain model of YAML documents and the calls into the YAML library.

use vstd::prelude::*;

verus! {

/// A YAML document held as plain values.
#[derive(Debug)]
pub enum Yaml {
    Null,
    Bool(bool),
    /// A number, held in its textual form.
    Number(String),
    Text(String),
    Sequence(Vec<Yaml>),
    /// The entries of a mapping, in document order.
    Mapping(Vec<(Yaml, Yaml)>),
    /// A tagged value: the tag's text and the value under it.
    Tagged(String, Box<Yaml>),
}

/// The mathematical value of a [`Yaml`] document.
pub enum YamlValue {
    Null,
    Bool(bool),
    Number(Seq<char>),
    Text(Seq<char>),
    Sequence(Seq<YamlValue>),
    Mapping(Seq<(YamlValue, YamlValue)>),
    Tagged(Seq<char>, Box<YamlValue>),
}

impl Yaml {
    /// The value that this document stands for.
    pub open spec fn model(&self) -> YamlValue
        decreases self,
    {
        match self {
            Yaml::Null => YamlValue::Null,
            Yaml::Bool(b) => YamlValue::Bool(*b),
            Yaml::Number(n) => YamlValue::Number(n@),
            Yaml::Text(s) => YamlValue::Text(s@),
            Yaml::Sequence(items) => YamlValue::Sequence(
                Seq::new(
                    items.len() as nat,
                    |i: int|
                        if 0 <= i < items.len() {
                            items[i].model()
                        } else {
                            YamlValue::Null
                        },
                ),
            ),
            Yaml::Mapping(entries) => YamlValue::Mapping(
                Seq::new(
                    entries.len() as nat,
                    |i: int|
                        if 0 <= i < entries.len() {
                            (entries[i].0.model(), entries[i].1.model())
                        } else {
                            (YamlValue::Null, YamlValue::Null)
                        },
                ),
            ),
            Yaml::Tagged(tag, inner) => YamlValue::Tagged(tag@, Box::new(inner.model())),
        }
    }
}

impl View for Yaml {
    type V = YamlValue;

    open spec fn view(&self) -> YamlValue {
        self.model()
    }
}

/// Whether `value` is null, a boolean or text.
pub open spec fn is_leaf(value: YamlValue) -> bool {
    value is Null || value is Bool || value is Text
}

/// Whether `value` is a leaf or a sequence of leaves.
pub open spec fn is_shallow(value: YamlValue) -> bool {
    is_leaf(value) || match value {
        YamlValue::Sequence(items) => forall|i: int| 0 <= i < items.len() ==> is_leaf(#[trigger] items[i]),
        _ => false,
    }
}

/// Whether `value` can be written out as it stands: a leaf, a sequence of
/// leaves, or a mapping from pairwise different leaves to such values.
pub open spec fn is_printable(value: YamlValue) -> bool {
    is_shallow(value) || match value {
        YamlValue::Mapping(entries) => {
            &&& forall|i: int|
                0 <= i < entries.len() ==> is_leaf((#[trigger] entries[i]).0) && is_shallow(
                    entries[i].1,
                )
            &&& forall|i: int, j: int|
                0 <= i < j < entries.len() ==> (#[trigger] entries[i]).0 != (#[trigger] entries[j]).0
        },
        _ => false,
    }
}

#[verifier::external_type_specification]
#[verifier::external_body]
pub struct ExValue(serde_yaml::Value);

/// What a value of the YAML library holds.
pub uninterp spec fn value_model(value: serde_yaml::Value) -> YamlValue;

/// The document that `text` parses to; `None` where `text` is not one YAML
/// document.
pub uninterp spec fn yaml_document(text: Seq<char>) -> Option<YamlValue>;

/// The YAML text that the emitter writes for `document`; `None` where it
/// fails.
pub uninterp spec fn yaml_text(document: YamlValue) -> Option<Seq<char>>;

/// Calls `serde_yaml::from_str` for a `serde_yaml::Value`; an error comes
/// back as its diagnostic.
///
/// Trusted: whether parsing succeeds, and the value it gives, depend on
/// `text` alone; the value is named [`yaml_document`].
#[verifier::external_body]
fn parse_value(text: &str) -> (r: Result<serde_yaml::Value, String>)
    ensures
        match r {
            Ok(value) => yaml_document(text@) == Some(value_model(value)),
            Err(_) => yaml_document(text@) is None,
        },
{
    serde_yaml::from_str::<serde_yaml::Value>(text).map_err(|e| e.to_string())
}

/// Calls `serde_yaml::to_string` on a `serde_yaml::Value`; an error comes
/// back as its diagnostic.
///
/// Trusted: whether emitting succeeds, and the text it gives, depend on
/// what the value holds alone; the text is named [`yaml_text`].
#[verifier::external_body]
fn emit_value(value: &serde_yaml::Value) -> (r: Result<String, String>)
    ensures
        match r {
            Ok(text) => yaml_text(value_model(*value)) == Some(text@),
            Err(_) => yaml_text(value_model(*value)) is None,
        },
{
    serde_yaml::to_string(value).map_err(|e| e.to_string())
}

/// Takes a `serde_yaml::Value` apart, variant by variant, into a [`Yaml`].
/// A number comes as its text, a tag as its text, and a mapping's entries in
/// the order in which the mapping holds them.
///
/// Trusted: the result holds what the value holds.
#[verifier::external_body]
fn import(value: serde_yaml::Value) -> (r: Yaml)
    ensures
        r@ == value_model(value),
{
    match value {
        serde_yaml::Value::Null => Yaml::Null,
        serde_yaml::Value::Bool(b) => Yaml::Bool(b),
        serde_yaml::Value::Number(n) => Yaml::Number(n.to_string()),
        serde_yaml::Value::String(s) => Yaml::Text(s),
        serde_yaml::Value::Sequence(items) => Yaml::Sequence(items.into_iter().map(import).collect()),
        serde_yaml::Value::Mapping(entries) => Yaml::Mapping(
            entries.into_iter().map(|(k, v)| (import(k), import(v))).collect(),
        ),
        serde_yaml::Value::Tagged(t) => Yaml::Tagged(t.tag.to_string(), Box::new(import(t.value))),
    }
}

/// Builds the `serde_yaml::Value` that holds what a printable [`Yaml`]
/// holds, variant by variant.
///
/// Trusted: the result holds what `document` holds. Numbers and tagged
/// values are not printable and never reach this function.
#[verifier::external_body]
fn export(document: &Yaml) -> (r: serde_yaml::Value)
    requires
        is_printable(document@),
    ensures
        value_model(r) == document@,
{
    match document {
        Yaml::Bool(b) => serde_yaml::Value::Bool(*b),
        Yaml::Text(s) => serde_yaml::Value::String(s.clone()),
        Yaml::Sequence(items) => serde_yaml::Value::Sequence(items.iter().map(export).collect()),
        Yaml::Mapping(entries) => serde_yaml::Value::Mapping(
            entries.iter().map(|(k, v)| (export(k), export(v))).collect(),
        ),
        _ => serde_yaml::Value::Null,
    }
}

/// Parses `text` as one YAML document. An error carries the parser's
/// diagnostic.
pub fn parse(text: &str) -> (r: Result<Yaml, String>)
    ensures
        match r {
            Ok(document) => yaml_document(text@) == Some(document@),
            Err(_) => yaml_document(text@) is None,
        },
{
    match parse_value(text) {
        Ok(value) => Ok(import(value)),
        Err(diagnostic) => Err(diagnostic),
    }
}

/// Writes `document` out as YAML text. An error carries the emitter's
/// diagnostic.
pub(crate) fn render(document: &Yaml) -> (r: Result<String, String>)
    requires
        is_printable(document@),
    ensures
        match r {
            Ok(text) => yaml_text(document@) == Some(text@),
            Err(_) => yaml_text(document@) is None,
        },
{
    let value = export(document);
    emit_value(&value)
}

} // verus!
