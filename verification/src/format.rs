//! The formats of configuration files, told apart by the file's extension.

use crate::text::{extension, extension_of, lowercase, lowercased, same_text};
use vstd::prelude::*;

verus! {

/// A supported format.
#[derive(Debug, Clone, Copy, PartialEq, Eq, Structural)]
pub enum ConfigFormat {
    /// JSON, with the extensions `json`, `json5` and `jsonc`.
    Json,
    /// YAML, with the extensions `yaml` and `yml`.
    Yaml,
    /// TOML, with the extension `toml`.
    Toml,
}

impl ConfigFormat {
    /// The format that an extension in lower case stands for.
    pub open spec fn named(extension: Seq<char>) -> Option<ConfigFormat> {
        if extension == "json"@ || extension == "json5"@ || extension == "jsonc"@ {
            Some(ConfigFormat::Json)
        } else if extension == "yaml"@ || extension == "yml"@ {
            Some(ConfigFormat::Yaml)
        } else if extension == "toml"@ {
            Some(ConfigFormat::Toml)
        } else {
            None
        }
    }

    /// The format of the file at `path`: that of its extension, whatever the
    /// case of its letters. `None` where the path has no extension or the
    /// extension stands for no format.
    pub open spec fn of_path(path: Seq<char>) -> Option<ConfigFormat> {
        match extension_of(path) {
            Some(extension) => Self::named(lowercased(extension)),
            None => None,
        }
    }

    /// The format that `extension`, written in lower case, stands for.
    pub fn from_extension(extension: &str) -> (format: Option<ConfigFormat>)
        ensures
            format == Self::named(extension@),
    {
        if same_text(extension, "json") || same_text(extension, "json5") || same_text(
            extension,
            "jsonc",
        ) {
            Some(ConfigFormat::Json)
        } else if same_text(extension, "yaml") || same_text(extension, "yml") {
            Some(ConfigFormat::Yaml)
        } else if same_text(extension, "toml") {
            Some(ConfigFormat::Toml)
        } else {
            None
        }
    }

    /// The format of the file at `path`, by its extension.
    pub fn from_path(path: &str) -> (format: Option<ConfigFormat>)
        ensures
            format == Self::of_path(path@),
    {
        match extension(path) {
            Some(name) => {
                let lower = lowercase(name);
                Self::from_extension(lower.as_str())
            },
            None => None,
        }
    }
}

} // verus!
