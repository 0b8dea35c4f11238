//! Configuration schema, validation, handler resolution and verdict folding
//! for a declarative file-integrity checker.

pub mod builtin_handlers;
pub mod config;
pub mod dispatch;
pub mod document;
pub mod external;
pub mod resolver;
pub mod seqs;
pub mod text;
pub mod theorems;
pub mod validators;
