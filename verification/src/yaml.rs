//! YAML documents, as `serde_yaml` reads them.
//!
//! Nothing in this file is proved. A document is an opaque value of
//! `serde_yaml`; what it holds is known only through the functions named
//! here, each of which stands for what one function of `serde_yaml` returns.

use vstd::prelude::*;

verus! {

/// `serde_yaml::Value`: a parsed YAML node.
#[verifier::external_type_specification]
#[verifier::external_body]
pub struct ExValue(serde_yaml::Value);

/// `serde_yaml::Mapping`: a YAML mapping, which keeps its entries in the
/// order in which they were written.
#[verifier::external_type_specification]
#[verifier::external_body]
pub struct ExMapping(serde_yaml::Mapping);

/// `serde_yaml::Error`: why a text is no YAML document.
#[verifier::external_type_specification]
#[verifier::external_body]
pub struct ExError(serde_yaml::Error);

/// The document that a text is read as, or the reason why it is none.
pub uninterp spec fn yaml_document(text: Seq<char>) -> Result<serde_yaml::Value, serde_yaml::Error>;

/// The text of a node that is a string.
pub uninterp spec fn yaml_text(value: serde_yaml::Value) -> Option<Seq<char>>;

/// The number of a node that is a non-negative integer below 2^64.
pub uninterp spec fn yaml_unsigned(value: serde_yaml::Value) -> Option<u64>;

/// Whether a node is null.
pub uninterp spec fn yaml_null(value: serde_yaml::Value) -> bool;

/// The items of a node that is a sequence.
pub uninterp spec fn yaml_items(value: serde_yaml::Value) -> Option<Seq<serde_yaml::Value>>;

/// The mapping of a node that is one.
pub uninterp spec fn yaml_mapping(value: serde_yaml::Value) -> Option<serde_yaml::Mapping>;

/// The entries of a mapping, each a key and its value, in the order in which
/// they were written.
pub uninterp spec fn yaml_entries(mapping: serde_yaml::Mapping) -> Seq<
    (serde_yaml::Value, serde_yaml::Value),
>;

/// The message of an error, as it is displayed.
pub uninterp spec fn yaml_message(error: serde_yaml::Error) -> Seq<char>;

/// Reads `text` with `serde_yaml::from_str`, as a `serde_yaml::Value`. The
/// result depends on the text alone.
#[verifier::external_body]
pub(crate) fn parse_document(text: &str) -> (document: Result<
    serde_yaml::Value,
    serde_yaml::Error,
>)
    ensures
        document == yaml_document(text@),
{
    serde_yaml::from_str::<serde_yaml::Value>(text)
}

/// `Value::as_str` returns the text of a string node, and `None` for every
/// other node.
pub assume_specification[ serde_yaml::Value::as_str ](value: &serde_yaml::Value) -> (text: Option<
    &str,
>)
    ensures
        match text {
            Some(text) => yaml_text(*value) == Some(text@),
            None => yaml_text(*value) is None,
        },
;

/// `Value::as_u64` returns the number of a node that is an integer which
/// fits in `u64`, and `None` for every other node.
pub assume_specification[ serde_yaml::Value::as_u64 ](value: &serde_yaml::Value) -> (number:
    Option<u64>)
    ensures
        number == yaml_unsigned(*value),
;

/// `Value::is_null` tells whether the node is null.
pub assume_specification[ serde_yaml::Value::is_null ](value: &serde_yaml::Value) -> (null: bool)
    ensures
        null == yaml_null(*value),
;

/// `Value::as_sequence` returns the items of a sequence node, and `None` for
/// every other node.
pub assume_specification[ serde_yaml::Value::as_sequence ](value: &serde_yaml::Value) -> (items:
    Option<&Vec<serde_yaml::Value>>)
    ensures
        match items {
            Some(items) => yaml_items(*value) == Some(items@),
            None => yaml_items(*value) is None,
        },
;

/// `Value::as_mapping` returns the mapping of a mapping node, and `None` for
/// every other node.
pub assume_specification[ serde_yaml::Value::as_mapping ](value: &serde_yaml::Value) -> (mapping:
    Option<&serde_yaml::Mapping>)
    ensures
        match mapping {
            Some(mapping) => yaml_mapping(*value) == Some(*mapping),
            None => yaml_mapping(*value) is None,
        },
;

/// The entries that a sequence of borrowed pairs refers to.
pub open spec fn entries_view(entries: Seq<(&serde_yaml::Value, &serde_yaml::Value)>) -> Seq<
    (serde_yaml::Value, serde_yaml::Value),
> {
    entries.map_values(|entry: (&serde_yaml::Value, &serde_yaml::Value)| (*entry.0, *entry.1))
}

/// Collects what `Mapping::iter` yields: the entries in the order in which
/// they were written.
#[verifier::external_body]
pub(crate) fn mapping_entries(mapping: &serde_yaml::Mapping) -> (entries: Vec<
    (&serde_yaml::Value, &serde_yaml::Value),
>)
    ensures
        entries_view(entries@) == yaml_entries(*mapping),
{
    mapping.iter().collect()
}

/// The message of `error`, as its `Display` writes it.
#[verifier::external_body]
pub(crate) fn error_message(error: &serde_yaml::Error) -> (message: String)
    ensures
        message@ == yaml_message(*error),
{
    error.to_string()
}

} // verus!
