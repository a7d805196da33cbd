//! The file formats a configuration can be written in, chosen by the file's
//! extension, and the errors of loading one.
use vstd::prelude::*;
use crate::order::compare;

verus! {

/// A textual configuration format.
#[derive(PartialEq, Eq, Structural, Clone, Copy, Debug)]
pub enum Format {
    Json,
    Toml,
    Yaml,
}

/// Why a file name cannot be loaded.
#[derive(PartialEq, Eq, Structural, Clone, Copy, Debug)]
pub enum InvalidInput {
    /// The file name has no extension.
    NoExtension,
    /// The extension names none of the known formats.
    UnknownExtension,
}

/// Why loading a configuration failed.
#[derive(Debug)]
pub enum LoadError {
    /// The file could not be read.
    Io { path: String, message: String },
    /// The file name does not name a known format.
    InvalidInput(InvalidInput),
    /// The content does not fit the configuration's schema in its format.
    Parse { path: String, message: String },
}

/// The lowercase form of a string.
pub uninterp spec fn lower_of(s: Seq<char>) -> Seq<char>;

/// Relies on `str::to_lowercase`: the lowercase form of `s`, which depends on
/// the characters of `s` alone.
#[verifier::external_body]
fn lowercase(s: &str) -> (r: String)
    ensures
        r@ == lower_of(s@),
{
    s.to_lowercase()
}

/// The format that a lowercase extension names, if any.
pub open spec fn format_named(ext: Seq<char>) -> Option<Format> {
    if ext == "json"@ {
        Some(Format::Json)
    } else if ext == "toml"@ {
        Some(Format::Toml)
    } else if ext == "yaml"@ || ext == "yml"@ {
        Some(Format::Yaml)
    } else {
        None
    }
}

/// The outcome of choosing a format for a lowercase extension.
pub open spec fn format_outcome(ext: Seq<char>) -> Result<Format, LoadError> {
    match format_named(ext) {
        Some(f) => Ok(f),
        None => Err(LoadError::InvalidInput(InvalidInput::UnknownExtension)),
    }
}

/// Chooses the format that an extension already in lowercase names.
pub fn format_for_lowered(ext: &str) -> (r: Result<Format, LoadError>)
    ensures
        r == format_outcome(ext@),
{
    if compare(ext, "json") == 0 {
        Ok(Format::Json)
    } else if compare(ext, "toml") == 0 {
        Ok(Format::Toml)
    } else if compare(ext, "yaml") == 0 || compare(ext, "yml") == 0 {
        Ok(Format::Yaml)
    } else {
        Err(LoadError::InvalidInput(InvalidInput::UnknownExtension))
    }
}

/// Chooses the format of a file from its extension, in any case; `None`
/// stands for a file name without an extension.
pub fn format_for_extension(ext: Option<&str>) -> (r: Result<Format, LoadError>)
    ensures
        ext is None ==> r == Err::<Format, LoadError>(LoadError::InvalidInput(InvalidInput::NoExtension)),
        ext matches Some(e) ==> r == format_outcome(lower_of(e@)),
{
    match ext {
        None => Err(LoadError::InvalidInput(InvalidInput::NoExtension)),
        Some(e) => {
            let lowered = lowercase(e);
            format_for_lowered(lowered.as_str())
        },
    }
}

} // verus!
