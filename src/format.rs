//! Which of the three formats a piece of text, a source or a destination is
//! written in.

use vstd::prelude::*;
use vstd::string::StringExecFns;
use crate::text::same_text;
use crate::codec::{parse_toml, parse_yaml, toml_doc, yaml_doc};

verus! {

/// A concrete serialization format.
#[derive(Clone, Copy, Debug, PartialEq, Eq, Structural)]
pub enum DetectedFormat {
    Yaml,
    Json,
    Toml,
}

/// Why no format could be found for a piece of text.
#[derive(Clone, Copy, Debug, PartialEq, Eq, Structural)]
pub enum FormatError {
    /// The text parses neither as TOML nor as YAML.
    UnknownFormat,
}

impl FormatError {
    /// A sentence describing the error.
    pub fn message(&self) -> (r: String)
        ensures
            r@ == "Unable to parse content as TOML or YAML"@,
    {
        String::from_str("Unable to parse content as TOML or YAML")
    }
}

/// The extension of the last component of a path, as `std::path::Path::extension` finds it.
pub uninterp spec fn path_extension(path: Seq<char>) -> Option<Seq<char>>;

/// The lowercase form of a text, as `str::to_lowercase` computes it.
pub uninterp spec fn lowercase(s: Seq<char>) -> Seq<char>;

/// Relies on `std::path::Path::extension`: the extension of the path's file name.
#[verifier::external_body]
fn extension_of(path: &str) -> (r: Option<String>)
    ensures
        r matches Some(e) ==> path_extension(path@) == Some(e@),
        r is None ==> path_extension(path@) is None,
{
    std::path::Path::new(path).extension().map(|e| e.to_string_lossy().into_owned())
}

/// Relies on `str::to_lowercase`: the lowercase form depends on the characters alone.
#[verifier::external_body]
fn to_lowercase(s: &str) -> (r: String)
    ensures
        r@ == lowercase(s@),
{
    s.to_lowercase()
}

/// The format that a (lowercase) file extension names.
pub open spec fn extension_format(ext: Seq<char>) -> Option<DetectedFormat> {
    if ext == "yaml"@ || ext == "yml"@ {
        Some(DetectedFormat::Yaml)
    } else if ext == "json"@ || ext == "json5"@ || ext == "jsonc"@ {
        Some(DetectedFormat::Json)
    } else if ext == "toml"@ || ext == "tml"@ {
        Some(DetectedFormat::Toml)
    } else {
        None
    }
}

/// The format that the extension of `path` names, compared without regard to case.
pub open spec fn path_format(path: Seq<char>) -> Option<DetectedFormat> {
    match path_extension(path) {
        Some(ext) => extension_format(lowercase(ext)),
        None => None,
    }
}

/// The format of a text, from whether it parses as TOML and as YAML: TOML is
/// tried first, being the strictest.
pub open spec fn content_format(is_toml: bool, is_yaml: bool) -> Result<DetectedFormat, FormatError> {
    if is_toml {
        Ok(DetectedFormat::Toml)
    } else if is_yaml {
        Ok(DetectedFormat::Yaml)
    } else {
        Err(FormatError::UnknownFormat)
    }
}

/// The format that a lowercase extension names.
pub fn format_for_extension(ext: &str) -> (r: Option<DetectedFormat>)
    ensures
        r == extension_format(ext@),
{
    if same_text(ext, "yaml") || same_text(ext, "yml") {
        Some(DetectedFormat::Yaml)
    } else if same_text(ext, "json") || same_text(ext, "json5") || same_text(ext, "jsonc") {
        Some(DetectedFormat::Json)
    } else if same_text(ext, "toml") || same_text(ext, "tml") {
        Some(DetectedFormat::Toml)
    } else {
        None
    }
}

/// The format that the extension of `path` names, if it names one.
pub fn detect_format_from_extension(path: &str) -> (r: Option<DetectedFormat>)
    ensures
        r == path_format(path@),
{
    match extension_of(path) {
        Some(ext) => {
            let lower = to_lowercase(ext.as_str());
            format_for_extension(lower.as_str())
        },
        None => None,
    }
}

/// The format of a text, from whether it parses as TOML and as YAML.
pub fn format_from_parse_results(is_toml: bool, is_yaml: bool) -> (r: Result<DetectedFormat, FormatError>)
    ensures
        r == content_format(is_toml, is_yaml),
{
    if is_toml {
        Ok(DetectedFormat::Toml)
    } else if is_yaml {
        Ok(DetectedFormat::Yaml)
    } else {
        Err(FormatError::UnknownFormat)
    }
}

/// The format of a text found by parsing it: as TOML first, then as YAML
/// (which also reads JSON).
pub fn detect_format_from_content(content: &str) -> (r: Result<DetectedFormat, FormatError>)
    ensures
        r == content_format(toml_doc(content@) is Some, yaml_doc(content@) is Some),
{
    if parse_toml(content).is_ok() {
        format_from_parse_results(true, false)
    } else {
        let is_yaml = parse_yaml(content).is_ok();
        format_from_parse_results(false, is_yaml)
    }
}

/// The format of a fragment's text: the one its path's extension names, or
/// else the one found by parsing it. A fragment produced by a command has no path.
pub fn source_format(path: Option<&str>, content: &str) -> (r: Result<DetectedFormat, FormatError>)
    ensures
        r == match path {
            Some(p) => match path_format(p@) {
                Some(f) => Ok(f),
                None => content_format(toml_doc(content@) is Some, yaml_doc(content@) is Some),
            },
            None => content_format(toml_doc(content@) is Some, yaml_doc(content@) is Some),
        },
{
    match path {
        Some(p) => match detect_format_from_extension(p) {
            Some(f) => Ok(f),
            None => detect_format_from_content(content),
        },
        None => detect_format_from_content(content),
    }
}

/// The format a destination is written in: the one its extension names, or
/// JSON when the extension names none; the flag tells whether JSON was chosen
/// for that reason.
pub fn format_for_target(path: &str) -> (r: (DetectedFormat, bool))
    ensures
        r == match path_format(path@) {
            Some(f) => (f, false),
            None => (DetectedFormat::Json, true),
        },
{
    match detect_format_from_extension(path) {
        Some(f) => (f, false),
        None => (DetectedFormat::Json, true),
    }
}

/// The warning printed when a destination's extension names no format.
pub fn fallback_warning(path: &str) -> (r: String)
    ensures
        r@ == "Warning: Unable to determine format from file extension for "@ + path@
            + ", defaulting to JSON"@,
{
    let mut w = String::from_str("Warning: Unable to determine format from file extension for ");
    w.append(path);
    w.append(", defaulting to JSON");
    w
}

} // verus!
