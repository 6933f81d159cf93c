//! Merges configuration fragments written in TOML, YAML or JSON into one
//! document per tool, decides which fragments apply in the current
//! directory, and plans where the merged document is written.

pub mod value;
pub mod merge;
pub mod grouping;
pub mod text;
pub mod format;
pub mod codec;
pub mod path;
pub mod conf;
pub mod tool;
pub mod command;
