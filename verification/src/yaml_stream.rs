//! Reading a YAML stream with `serde_yaml`: one tree per document, or where
//! the parser failed.

use vstd::prelude::*;
use serde::Deserialize;
use serde_yaml::Value;
use crate::yaml::{YamlEntry, YamlValue, unique_keys};

verus! {

/// Where a YAML stream failed to parse: the position of the document and the
/// parser's message.
#[derive(Debug)]
pub struct YamlParseFailure {
    pub document_index: usize,
    pub message: String,
}

#[verifier::external_type_specification]
#[verifier::external_body]
pub struct ExYamlNode(serde_yaml::Value);

/// What `serde_yaml` makes of a stream: the trees of its documents in order,
/// or the position of the first document that failed and the parser's message.
/// It stands for one whole stream parse, made of several calls on the same
/// text: `Deserializer::from_str`, its iterator over documents, and
/// `Value::deserialize` for each document up to the first failure.
pub uninterp spec fn spec_parse_yaml_stream(raw: Seq<char>) -> Result<Seq<YamlValue>, (nat, Seq<char>)>;

/// The library's tree for one node that `serde_yaml` parsed, variant for
/// variant: numbers keep `Number::as_i64`, tags keep their text, mapping
/// entries keep their order. It has no contract of its own: it runs only
/// inside `parse_yaml_stream`, whose contract names the whole result.
#[verifier::external_body]
fn yaml_value_of(node: &serde_yaml::Value) -> YamlValue {
    match node {
        Value::Null => YamlValue::Null,
        Value::Bool(flag) => YamlValue::Bool(*flag),
        Value::Number(number) => YamlValue::Number(number.as_i64()),
        Value::String(text) => YamlValue::String(text.clone()),
        Value::Sequence(items) => YamlValue::Sequence(items.iter().map(yaml_value_of).collect()),
        Value::Mapping(map) => YamlValue::Mapping(map.iter().map(|(k, v)| YamlEntry { key: yaml_value_of(k), value: yaml_value_of(v) }).collect()),
        Value::Tagged(tagged) => YamlValue::Tagged(tagged.tag.to_string(), Box::new(yaml_value_of(&tagged.value))),
    }
}

/// Parses each document of a YAML stream with `serde_yaml::Deserializer::from_str`
/// and `Value::deserialize`, stopping at the first that fails. Claimed: the
/// result is `spec_parse_yaml_stream` of the text (the trees, or the failing
/// document's position and the error's message), and every mapping in the
/// trees has unique keys, since `serde_yaml::Mapping` is keyed by value and
/// refuses a repeated key.
#[verifier::external_body]
pub(crate) fn parse_yaml_stream(raw_content: &str) -> (r: Result<Vec<YamlValue>, YamlParseFailure>)
    ensures
        match r {
            Ok(values) => spec_parse_yaml_stream(raw_content@) == Ok::<Seq<YamlValue>, (nat, Seq<char>)>(values@)
                && forall|i: int| 0 <= i < values@.len() ==> unique_keys(#[trigger] values@[i]),
            Err(failure) => spec_parse_yaml_stream(raw_content@)
                == Err::<Seq<YamlValue>, (nat, Seq<char>)>((failure.document_index as nat, failure.message@)),
        },
{
    let mut values: Vec<YamlValue> = Vec::new();
    for (document_index, document) in serde_yaml::Deserializer::from_str(raw_content).enumerate() {
        match Value::deserialize(document) {
            Ok(node) => values.push(yaml_value_of(&node)),
            Err(error) => return Err(YamlParseFailure { document_index, message: error.to_string() }),
        }
    }
    Ok(values)
}

} // verus!
