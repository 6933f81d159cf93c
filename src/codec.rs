//! The three format codecs: text in TOML, YAML or JSON to a document and back.
//! Each codec goes through serde_yaml's value, which all three format crates
//! convert to and from.

use vstd::prelude::*;
use vstd::string::StringExecFns;
use crate::format::DetectedFormat;
use crate::value::{Doc, Node, doc_of, docs_of, entry_docs_of};
use serde_yaml::value::{Tag, TaggedValue};
use serde_yaml::{Number, Value as Yaml};

verus! {

#[verifier::external_type_specification]
#[verifier::external_body]
pub struct ExYamlValue(serde_yaml::Value);

/// The document a YAML text holds, as `serde_yaml::from_str` reads it.
pub uninterp spec fn yaml_doc(text: Seq<char>) -> Option<Doc>;

/// The document a JSON text holds, as `serde_json::from_str` reads it.
pub uninterp spec fn json_doc(text: Seq<char>) -> Option<Doc>;

/// The document a TOML text holds, as `toml::from_str` reads it into a table.
pub uninterp spec fn toml_doc(text: Seq<char>) -> Option<Doc>;

/// The YAML text of a document, as `serde_yaml::to_string` writes it.
pub uninterp spec fn yaml_text(doc: Doc) -> Option<Seq<char>>;

/// The JSON text of a document, as `serde_json::to_string_pretty` writes it.
pub uninterp spec fn json_text(doc: Doc) -> Option<Seq<char>>;

/// The TOML text of a document, as `toml::to_string` writes it.
pub uninterp spec fn toml_text(doc: Doc) -> Option<Seq<char>>;

/// Converts a `serde_yaml::Value` into a node, variant by variant; used by the
/// codec wrappers below, whose contracts cover the conversion.
#[verifier::external_body]
fn from_yaml_value(v: Yaml) -> Node {
    match v {
        Yaml::Null => Node::Null,
        Yaml::Bool(b) => Node::Bool(b),
        Yaml::Number(n) => Node::Number(n.to_string()),
        Yaml::String(s) => Node::Text(s),
        Yaml::Sequence(items) => Node::Sequence(items.into_iter().map(from_yaml_value).collect()),
        Yaml::Mapping(m) => Node::Mapping(m.into_iter().map(|(k, v)| (from_yaml_value(k), from_yaml_value(v))).collect()),
        Yaml::Tagged(t) => Node::Tagged(t.tag.to_string(), Box::new(from_yaml_value(t.value))),
    }
}

/// Converts a node into a `serde_yaml::Value`, variant by variant; a number
/// is read back with `serde_yaml::Number::from_str`. Used by the codec
/// wrappers below, whose contracts cover the conversion.
#[verifier::external_body]
fn to_yaml_value(v: &Node) -> Result<Yaml, String>
    requires
        tags_nonempty(v@),
{
    Ok(match v {
        Node::Null => Yaml::Null,
        Node::Bool(b) => Yaml::Bool(*b),
        Node::Number(n) => Yaml::Number(n.parse::<Number>().map_err(|e| e.to_string())?),
        Node::Text(s) => Yaml::String(s.clone()),
        Node::Sequence(items) => Yaml::Sequence(items.iter().map(to_yaml_value).collect::<Result<_, _>>()?),
        Node::Mapping(es) => Yaml::Mapping(es.iter().map(to_yaml_entry).collect::<Result<_, _>>()?),
        Node::Tagged(tag, inner) => Yaml::Tagged(Box::new(TaggedValue { tag: Tag::new(tag.as_str()), value: to_yaml_value(inner)? })),
    })
}

/// Converts a mapping entry of nodes into one of `serde_yaml::Value`s; part
/// of `to_yaml_value`.
#[verifier::external_body]
fn to_yaml_entry(e: &(Node, Node)) -> Result<(Yaml, Yaml), String>
    requires
        tags_nonempty(e.0@),
        tags_nonempty(e.1@),
{
    Ok((to_yaml_value(&e.0)?, to_yaml_value(&e.1)?))
}

/// Relies on `serde_yaml::from_str` into a `serde_yaml::Value`: the document
/// depends on the text alone.
#[verifier::external_body]
pub(crate) fn parse_yaml(text: &str) -> (r: Result<Node, String>)
    ensures
        r is Ok <==> yaml_doc(text@) is Some,
        r matches Ok(v) ==> yaml_doc(text@) == Some(v@),
{
    serde_yaml::from_str::<serde_yaml::Value>(text).map(from_yaml_value).map_err(|e| e.to_string())
}

/// Relies on `serde_json::from_str` into a `serde_json::Value`, and
/// `serde_yaml::to_value` of it: the document depends on the text alone.
#[verifier::external_body]
fn parse_json(text: &str) -> (r: Result<Node, String>)
    ensures
        r is Ok <==> json_doc(text@) is Some,
        r matches Ok(v) ==> json_doc(text@) == Some(v@),
{
    let json = serde_json::from_str::<serde_json::Value>(text).map_err(|e| e.to_string())?;
    serde_yaml::to_value(json).map(from_yaml_value).map_err(|e| e.to_string())
}

/// Relies on `toml::from_str` into a `toml::Table`, and `serde_yaml::to_value`
/// of it: the document depends on the text alone.
#[verifier::external_body]
pub(crate) fn parse_toml(text: &str) -> (r: Result<Node, String>)
    ensures
        r is Ok <==> toml_doc(text@) is Some,
        r matches Ok(v) ==> toml_doc(text@) == Some(v@),
{
    let table = toml::from_str::<toml::Table>(text).map_err(|e| e.to_string())?;
    serde_yaml::to_value(table).map(from_yaml_value).map_err(|e| e.to_string())
}

/// Every tag in the document, at any depth, is a nonempty text: YAML has no
/// syntax for an empty tag, and serde_yaml's `Tag::new` refuses one.
pub open spec fn tags_nonempty(d: Doc) -> bool
    decreases d,
{
    match d {
        Doc::Sequence(items) => forall|i: int| 0 <= i < items.len() ==> tags_nonempty(#[trigger] items[i]),
        Doc::Mapping(es) => forall|i: int|
            0 <= i < es.len() ==> tags_nonempty(#[trigger] es[i].0) && tags_nonempty(es[i].1),
        Doc::Tagged(tag, inner) => tag.len() > 0 && tags_nonempty(*inner),
        _ => true,
    }
}

/// A document with the tags around it taken off.
pub open spec fn untagged(d: Doc) -> Doc
    decreases d,
{
    match d {
        Doc::Tagged(_, inner) => untagged(*inner),
        _ => d,
    }
}

/// Whether every tag in the node is nonempty.
pub fn has_nonempty_tags(v: &Node) -> (r: bool)
    ensures
        r == tags_nonempty(v@),
    decreases v,
{
    match v {
        Node::Sequence(xs) => {
            let mut i: usize = 0;
            while i < xs.len()
                invariant
                    *v == Node::Sequence(*xs),
                    i <= xs.len(),
                    forall|j: int| 0 <= j < i ==> tags_nonempty(doc_of(#[trigger] xs@[j])),
                decreases xs.len() - i,
            {
                assert(decreases_to!(*v => (*v)->Sequence_0));
                assert(decreases_to!(*xs => xs@));
                assert(decreases_to!(xs@ => xs@[i as int]));
                if !has_nonempty_tags(&xs[i]) {
                    let ghost items = docs_of(xs@);
                    assert(items[i as int] == doc_of(xs@[i as int]));
                    assert(decreases_to!(Doc::Sequence(items) => Doc::Sequence(items)->Sequence_0));
                    assert(decreases_to!(items => items[i as int]));
                    return false;
                }
                i = i + 1;
            }
            assert forall|j: int| 0 <= j < docs_of(xs@).len() implies tags_nonempty(#[trigger] docs_of(xs@)[j]) by {
                assert(docs_of(xs@)[j] == doc_of(xs@[j]));
            }
            assert(v@ == Doc::Sequence(docs_of(xs@)));
            true
        },
        Node::Mapping(es) => {
            let mut i: usize = 0;
            while i < es.len()
                invariant
                    *v == Node::Mapping(*es),
                    i <= es.len(),
                    forall|j: int| 0 <= j < i ==> tags_nonempty(doc_of(#[trigger] es@[j].0)) && tags_nonempty(doc_of(es@[j].1)),
                decreases es.len() - i,
            {
                assert(decreases_to!(*v => (*v)->Mapping_0));
                assert(decreases_to!(*es => es@));
                assert(decreases_to!(es@ => es@[i as int]));
                assert(decreases_to!(es@[i as int] => es@[i as int].0));
                assert(decreases_to!(es@[i as int] => es@[i as int].1));
                if !has_nonempty_tags(&es[i].0) || !has_nonempty_tags(&es[i].1) {
                    let ghost entries = entry_docs_of(es@);
                    assert(entries[i as int] == (doc_of(es@[i as int].0), doc_of(es@[i as int].1)));
                    assert(decreases_to!(Doc::Mapping(entries) => Doc::Mapping(entries)->Mapping_0));
                    assert(decreases_to!(entries => entries[i as int]));
                    assert(decreases_to!(entries[i as int] => entries[i as int].0));
                    assert(decreases_to!(entries[i as int] => entries[i as int].1));
                    return false;
                }
                i = i + 1;
            }
            assert forall|j: int| 0 <= j < entry_docs_of(es@).len() implies tags_nonempty(#[trigger] entry_docs_of(es@)[j].0)
                && tags_nonempty(entry_docs_of(es@)[j].1) by {
                assert(entry_docs_of(es@)[j] == (doc_of(es@[j].0), doc_of(es@[j].1)));
            }
            assert(v@ == Doc::Mapping(entry_docs_of(es@)));
            true
        },
        Node::Tagged(tag, inner) => !tag.as_str().is_empty() && has_nonempty_tags(inner),
        _ => true,
    }
}

/// Whether the node, seen through any tags around it, is a mapping.
pub fn is_table(v: &Node) -> (r: bool)
    ensures
        r == untagged(v@) is Mapping,
    decreases v,
{
    match v {
        Node::Mapping(_) => true,
        Node::Tagged(_, inner) => is_table(inner),
        _ => false,
    }
}

/// Relies on `serde_yaml::to_string`: the text depends on the document alone.
#[verifier::external_body]
fn serialize_yaml(v: &Node) -> (r: Result<String, String>)
    requires
        tags_nonempty(v@),
    ensures
        r is Ok <==> yaml_text(v@) is Some,
        r matches Ok(s) ==> yaml_text(v@) == Some(s@),
{
    let value = to_yaml_value(v)?;
    serde_yaml::to_string(&value).map_err(|e| e.to_string())
}

/// Relies on `serde_yaml::from_value` into a `serde_json::Value` and
/// `serde_json::to_string_pretty`: the text depends on the document alone.
#[verifier::external_body]
fn serialize_json(v: &Node) -> (r: Result<String, String>)
    requires
        tags_nonempty(v@),
    ensures
        r is Ok <==> json_text(v@) is Some,
        r matches Ok(s) ==> json_text(v@) == Some(s@),
{
    let json = serde_yaml::from_value::<serde_json::Value>(to_yaml_value(v)?).map_err(|e| e.to_string())?;
    serde_json::to_string_pretty(&json).map_err(|e| e.to_string())
}

/// Relies on `serde_yaml::from_value` into a `toml::Table` and
/// `toml::to_string`: the text depends on the document alone.
#[verifier::external_body]
fn serialize_toml(v: &Node) -> (r: Result<String, String>)
    requires
        tags_nonempty(v@),
    ensures
        r is Ok <==> toml_text(v@) is Some,
        r matches Ok(s) ==> toml_text(v@) == Some(s@),
{
    let table = serde_yaml::from_value::<toml::Table>(to_yaml_value(v)?).map_err(|e| e.to_string())?;
    toml::to_string(&table).map_err(|e| e.to_string())
}

/// The document a text holds in a format.
pub open spec fn doc_in(format: DetectedFormat, text: Seq<char>) -> Option<Doc> {
    match format {
        DetectedFormat::Yaml => yaml_doc(text),
        DetectedFormat::Json => json_doc(text),
        DetectedFormat::Toml => toml_doc(text),
    }
}

/// The text of a document in a format.
pub open spec fn text_in(format: DetectedFormat, doc: Doc) -> Option<Seq<char>> {
    match format {
        DetectedFormat::Yaml => yaml_text(doc),
        DetectedFormat::Json => json_text(doc),
        DetectedFormat::Toml => toml_text(doc),
    }
}

/// A text that does not parse in its format.
#[derive(Debug, PartialEq, Eq)]
pub struct ParseError {
    pub format: DetectedFormat,
    pub cause: String,
}

/// A document that its format cannot represent.
#[derive(Debug, PartialEq, Eq)]
pub struct SerializeError {
    pub format: DetectedFormat,
    pub cause: String,
}

/// The name of a format in messages.
pub open spec fn format_name(format: DetectedFormat) -> Seq<char> {
    match format {
        DetectedFormat::Yaml => "YAML"@,
        DetectedFormat::Json => "JSON"@,
        DetectedFormat::Toml => "TOML"@,
    }
}

fn name_of(format: DetectedFormat) -> (r: &'static str)
    ensures
        r@ == format_name(format),
{
    match format {
        DetectedFormat::Yaml => "YAML",
        DetectedFormat::Json => "JSON",
        DetectedFormat::Toml => "TOML",
    }
}

impl ParseError {
    /// A sentence describing the error.
    pub fn message(&self) -> (r: String)
        ensures
            r@ == "Error parsing "@ + format_name(self.format) + ": "@ + self.cause@,
    {
        let mut m = String::from_str("Error parsing ");
        m.append(name_of(self.format));
        m.append(": ");
        m.append(self.cause.as_str());
        m
    }
}

impl SerializeError {
    /// A sentence describing the error.
    pub fn message(&self) -> (r: String)
        ensures
            r@ == "Error serializing "@ + format_name(self.format) + ": "@ + self.cause@,
    {
        let mut m = String::from_str("Error serializing ");
        m.append(name_of(self.format));
        m.append(": ");
        m.append(self.cause.as_str());
        m
    }
}

/// Parses `content` as `format`.
pub fn parse(content: &str, format: DetectedFormat) -> (r: Result<Node, ParseError>)
    ensures
        r is Ok <==> doc_in(format, content@) is Some,
        r matches Ok(v) ==> doc_in(format, content@) == Some(v@),
        r matches Err(e) ==> e.format == format,
{
    let parsed = match format {
        DetectedFormat::Yaml => parse_yaml(content),
        DetectedFormat::Json => parse_json(content),
        DetectedFormat::Toml => parse_toml(content),
    };
    match parsed {
        Ok(v) => Ok(v),
        Err(cause) => Err(ParseError { format, cause }),
    }
}

/// Writes `value` as text in `format`. A document with an empty tag has
/// no text in any format, and TOML holds only tables: a document that is not
/// a mapping (seen through its tags) fails there.
pub fn serialize(value: &Node, format: DetectedFormat) -> (r: Result<String, SerializeError>)
    ensures
        r is Ok <==> tags_nonempty(value@) && !(format == DetectedFormat::Toml && !(untagged(value@) is Mapping))
            && text_in(format, value@) is Some,
        r matches Ok(s) ==> text_in(format, value@) == Some(s@),
        r matches Err(e) ==> e.format == format,
        !tags_nonempty(value@) ==> r is Err,
        format == DetectedFormat::Toml && !(untagged(value@) is Mapping) ==> r is Err,
{
    if !has_nonempty_tags(value) {
        return Err(SerializeError { format, cause: String::from_str("a tag is empty") });
    }
    let written = match format {
        DetectedFormat::Yaml => serialize_yaml(value),
        DetectedFormat::Json => serialize_json(value),
        DetectedFormat::Toml => {
            if !is_table(value) {
                return Err(SerializeError { format, cause: String::from_str("the top-level value is not a table") });
            }
            serialize_toml(value)
        },
    };
    match written {
        Ok(s) => Ok(s),
        Err(cause) => Err(SerializeError { format, cause }),
    }
}

} // verus!
