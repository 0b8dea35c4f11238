//! The configuration: its schema, the rules that a configuration must meet,
//! the report of the rules that it breaks, and how it is read from text.
//!
//! Read one with [`parse`].

pub mod advice;
pub mod containers;
pub mod decode;
pub mod errors;
pub mod report;
pub mod rules;
pub mod schema;
pub mod validate;

pub use advice::{warnings, Warning};
pub use containers::validate_root;
pub use decode::{decode, Problem, SchemaError};
pub use errors::{
    FieldErrors, RecordErrors, RecordKey, ValidationError, ValidationErrors, ValidationErrorsKind,
};
pub use report::format_validation_errors;
pub use rules::{
    validate_argv, validate_exts, validate_filetype, validate_handlers, validate_headers,
    validate_override, validate_sources,
};
pub use schema::{Filetype, Handler, OneOrList, Override, Root};

use vstd::prelude::*;
use crate::config::advice::{advice, WarningView};
use crate::config::decode::decoded;
use crate::config::schema::RootView;
use crate::config::validate::{root_errors, valid};
use crate::document::{parse_document, toml_document, Node, SyntaxError};

verus! {

/// Why a text gives no configuration.
#[derive(Debug, PartialEq, Eq)]
pub enum ConfigError {
    /// The text is no TOML document
    Syntax(SyntaxError),
    /// The document does not fit the schema
    Schema(SchemaError),
    /// The configuration breaks rules; nothing of it is to be used
    Invalid(ValidationErrors),
}

/// What comes of a document: the configuration that it stands for, if it
/// stands for one that breaks no rule, with the advice on it.
pub open spec fn loaded(document: Node, builtins: Seq<Seq<char>>) -> Option<
    (RootView, Seq<WarningView>),
> {
    match decoded(document) {
        Ok(root) => if valid(root) {
            Some((root, advice(root, builtins)))
        } else {
            None
        },
        Err(_) => None,
    }
}

/// Reads a configuration from a document, checks all its rules and gathers
/// the advice on it, given the ids of the built-in handlers.
///
/// A document that does not fit the schema gives `Schema` with the first
/// flaw; one that fits and breaks rules gives `Invalid` with the full report.
pub fn load(document: &Node, builtins: &Vec<String>) -> (result: Result<
    (Root, Vec<Warning>),
    ConfigError,
>)
    ensures
        match result {
            Ok((root, notes)) => loaded(*document, builtins.deep_view()) == Some(
                (root@, notes.deep_view()),
            ),
            Err(ConfigError::Syntax(_)) => false,
            Err(ConfigError::Schema(e)) => decoded(*document) == Err::<RootView, _>(e@),
            Err(ConfigError::Invalid(report)) => decoded(*document) is Ok && !valid(
                decoded(*document)->Ok_0,
            ) && report@ == root_errors(decoded(*document)->Ok_0),
        },
{
    let root = match decode(document) {
        Ok(root) => root,
        Err(e) => {
            return Err(ConfigError::Schema(e));
        },
    };
    match root.validate() {
        Ok(_) => {},
        Err(report) => {
            return Err(ConfigError::Invalid(report));
        },
    }
    let notes = warnings(&root, builtins);
    Ok((root, notes))
}

/// Parses and validates the text of a configuration, given the ids of the
/// built-in handlers.
///
/// The text is handed to the TOML parser; what becomes of the document that
/// it stands for is what [`load`] says.
pub fn parse(toml_str: &str, builtins: &Vec<String>) -> (result: Result<
    (Root, Vec<Warning>),
    ConfigError,
>)
    ensures
        match result {
            Ok((root, notes)) => toml_document(toml_str@) is Some && loaded(
                toml_document(toml_str@)->0,
                builtins.deep_view(),
            ) == Some((root@, notes.deep_view())),
            Err(ConfigError::Syntax(_)) => toml_document(toml_str@) is None,
            Err(ConfigError::Schema(e)) => toml_document(toml_str@) is Some && decoded(
                toml_document(toml_str@)->0,
            ) == Err::<RootView, _>(e@),
            Err(ConfigError::Invalid(report)) => toml_document(toml_str@) is Some && decoded(
                toml_document(toml_str@)->0,
            ) is Ok && !valid(decoded(toml_document(toml_str@)->0)->Ok_0) && report@
                == root_errors(decoded(toml_document(toml_str@)->0)->Ok_0),
        },
{
    match parse_document(toml_str) {
        Ok(document) => load(&document, builtins),
        Err(e) => Err(ConfigError::Syntax(e)),
    }
}

} // verus!
