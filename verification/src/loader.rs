//! The document loader: text in, document tree out.

use vstd::prelude::*;

use crate::document::Yaml;
use crate::errors::ScanError;

verus! {

/// serde_yaml's dynamically typed document value, opaque to this crate's
/// proofs; it appears only inside the loader's trusted boundary.
#[verifier::external_type_specification]
#[verifier::external_body]
pub struct ExYamlValue(serde_yaml::Value);

/// The document that parsing `text` yields, in this crate's document model,
/// or `None` when the text is not valid YAML. Parsing is a function of the
/// text alone; what document a given text denotes is left unstated.
pub uninterp spec fn yaml_doc(text: Seq<char>) -> Option<Yaml>;

/// Relies on serde_yaml::from_str::<serde_yaml::Value>: it parses the text
/// into a generic document value, returning Err exactly on YAML syntax
/// errors, and on nothing else but the text.
#[verifier::external_body]
fn parse_yaml(text: &str) -> (r: Option<Yaml>)
    ensures
        r == yaml_doc(text@),
{
    match serde_yaml::from_str::<serde_yaml::Value>(text) {
        Ok(v) => Some(yaml_from_value(v)),
        Err(_) => None,
    }
}

/// Relies on serde_yaml::Value's shape: one arm per variant, fields moved
/// into this crate's document model. This is the conversion half of
/// `parse_yaml`'s trusted body, split out only because the tree is
/// recursive; no verified code calls it.
#[verifier::external_body]
fn yaml_from_value(v: serde_yaml::Value) -> Yaml {
    match v {
        serde_yaml::Value::Null => Yaml::Null,
        serde_yaml::Value::Bool(b) => Yaml::Bool(b),
        serde_yaml::Value::Number(n) => Yaml::Num(n.to_string()),
        serde_yaml::Value::String(s) => Yaml::Str(s),
        serde_yaml::Value::Sequence(items) => Yaml::List(
            items.into_iter().map(yaml_from_value).collect(),
        ),
        serde_yaml::Value::Mapping(m) => Yaml::Dict(
            m.into_iter().map(|(k, w)| (yaml_from_value(k), yaml_from_value(w))).collect(),
        ),
        serde_yaml::Value::Tagged(t) => Yaml::Tagged(Box::new(yaml_from_value(t.value))),
    }
}

/// Parse one file's text into a document, accepting any valid document
/// shape. Fails exactly when the text is not valid YAML, with a parse
/// error carrying `path`.
pub fn load_document(path: &str, text: &str) -> (r: Result<Yaml, ScanError>)
    ensures
        match r {
            Ok(doc) => yaml_doc(text@) == Some(doc),
            Err(e) => {
                &&& yaml_doc(text@) is None
                &&& e matches ScanError::Parse { path: p } && p@ == path@
            },
        },
{
    match parse_yaml(text) {
        Some(doc) => Ok(doc),
        None => Err(ScanError::Parse { path: path.to_owned() }),
    }
}

} // verus!
