//! A TOML document as a tree of plain values, and how text is turned into one.
//!
//! The grammar is the `toml` crate's; what it hands back is copied, variant by
//! variant, into [`Node`], which the rest of the library reads.

use vstd::prelude::*;

verus! {

/// A node of a TOML document: a value, with the values inside it.
#[derive(Debug, PartialEq, Eq)]
pub enum Node {
    String(String),
    Integer(i64),
    /// A float, as the text that it is displayed with
    Float(String),
    Boolean(bool),
    /// A date or time, as the text that it is displayed with
    Datetime(String),
    Array(Vec<Node>),
    /// A table: its keys with their values, in the order of the keys
    Table(Vec<(String, Node)>),
}

/// A text that is no TOML document.
#[derive(Debug, PartialEq, Eq)]
pub struct SyntaxError {
    /// What the parser found wrong, and where
    pub message: String,
}

/// `toml::Value`, a value as the parser hands it back. Nothing of what it
/// holds is visible here; it is copied into a [`Node`] to be read.
#[verifier::external_type_specification]
#[verifier::external_body]
pub struct ExTomlValue(toml::Value);

/// `toml::de::Error`, the parser's error. Only its text is taken from it.
#[verifier::external_type_specification]
#[verifier::external_body]
pub struct ExTomlError(toml::de::Error);

/// The document that a text stands for, where it is one.
pub uninterp spec fn toml_document(text: Seq<char>) -> Option<Node>;

/// The tree that holds what a value of the `toml` crate holds.
pub uninterp spec fn toml_tree(value: toml::Value) -> Node;

/// `<toml::Table as FromStr>::from_str`, with the table as a `toml::Value`:
/// parses a whole document. Whether the text is a document, and which, depends
/// on the text alone.
#[verifier::external_body]
fn parse_toml(text: &str) -> (parsed: Result<toml::Value, toml::de::Error>)
    ensures
        match parsed {
            Ok(value) => toml_document(text@) == Some(toml_tree(value)),
            Err(_) => toml_document(text@) is None,
        },
{
    text.parse::<toml::Table>().map(toml::Value::Table)
}

/// Copies a `toml::Value` into a [`Node`], variant by variant. A table's
/// entries come in the order in which `toml::Table::iter` yields them, a float
/// and a datetime as the text of their `Display`.
#[verifier::external_body]
fn to_tree(value: &toml::Value) -> (tree: Node)
    ensures
        tree == toml_tree(*value),
{
    match value {
        toml::Value::String(s) => Node::String(s.clone()),
        toml::Value::Integer(i) => Node::Integer(*i),
        toml::Value::Float(x) => Node::Float(x.to_string()),
        toml::Value::Boolean(b) => Node::Boolean(*b),
        toml::Value::Datetime(d) => Node::Datetime(d.to_string()),
        toml::Value::Array(a) => Node::Array(a.iter().map(to_tree).collect()),
        toml::Value::Table(t) => Node::Table(
            t.iter().map(|(k, v)| (k.clone(), to_tree(v))).collect(),
        ),
    }
}

/// The `Display` text of a `toml::de::Error`.
#[verifier::external_body]
fn error_text(error: &toml::de::Error) -> (message: String) {
    error.to_string()
}

/// Reads a TOML document. Succeeds exactly on the texts that are one.
pub fn parse_document(text: &str) -> (parsed: Result<Node, SyntaxError>)
    ensures
        match parsed {
            Ok(document) => toml_document(text@) == Some(document),
            Err(_) => toml_document(text@) is None,
        },
{
    match parse_toml(text) {
        Ok(value) => Ok(to_tree(&value)),
        Err(error) => Err(SyntaxError { message: error_text(&error) }),
    }
}

} // verus!
