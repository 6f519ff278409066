//! A configuration held in memory: read and changed by path, and written
//! back only when something was changed.
//!
//! The store touches no file. Loading and saving are done in steps: the
//! store decides what has to happen, the caller reads, parses, renders and
//! writes, and tells the store how it went.

use crate::error::{Error, Failure};
use crate::format::ConfigFormat;
use crate::json::tree_of;
use crate::path::{read, refused, written};
use crate::tree::{Refusal, Tree};
use serde_json::Value;
use vstd::prelude::*;

verus! {

/// The message for a file whose extension names no supported format.
pub open spec fn unsupported_message() -> Seq<char> {
    "Unsupported config extension (use .json, .yaml, .toml)"@
}

/// Where a configuration comes from: the path of its file, and the format
/// that the file's extension stands for.
#[derive(Debug)]
pub struct Origin {
    path: String,
    format: ConfigFormat,
}

/// What `save` has to do.
#[derive(Debug, Clone, Copy, PartialEq, Eq, Structural)]
pub enum SavePlan {
    /// Nothing was changed: the file is left alone.
    Nothing,
    /// The document has to be rendered and written to the file.
    Write,
}

/// A loaded configuration.
#[derive(Debug)]
pub struct RWConfig {
    origin: Origin,
    value: Value,
    dirty: bool,
}

impl Origin {
    /// The format is the one that the path's extension stands for.
    #[verifier::type_invariant]
    spec fn consistent(self) -> bool {
        ConfigFormat::of_path(self.path@) == Some(self.format)
    }

    /// The path of the file.
    pub closed spec fn source(self) -> Seq<char> {
        self.path@
    }

    /// First step of loading the file at `path`, taken before the file is
    /// opened: the format is decided by the extension, and a file of an
    /// unsupported format is refused unread.
    pub fn of(path: &str) -> (found: Result<Origin, Error>)
        ensures
            match ConfigFormat::of_path(path@) {
                Some(_) => found matches Ok(origin) && origin.source() == path@,
                None => found matches Err(error) && error@ == Failure::Parse(
                    unsupported_message(),
                ),
            },
    {
        match ConfigFormat::from_path(path) {
            Some(format) => Ok(Origin { path: path.to_owned(), format }),
            None => Err(
                Error::Parse("Unsupported config extension (use .json, .yaml, .toml)".to_owned()),
            ),
        }
    }

    /// The path of the file.
    pub fn path(&self) -> (path: &str)
        ensures
            path@ == self.source(),
    {
        self.path.as_str()
    }

    /// The format to parse and render the file's text in.
    pub fn format(&self) -> (format: ConfigFormat)
        ensures
            ConfigFormat::of_path(self.source()) == Some(format),
    {
        proof {
            use_type_invariant(self);
        }
        self.format
    }
}

impl RWConfig {
    /// The path of the file that the configuration was loaded from.
    pub closed spec fn source(self) -> Seq<char> {
        self.origin.source()
    }

    /// The document as it stands in memory.
    pub closed spec fn document(self) -> Tree {
        tree_of(self.value)
    }

    /// Whether the document was changed since it was loaded or last saved.
    pub closed spec fn dirty(self) -> bool {
        self.dirty
    }

    /// Last step of loading: the configuration of the file at `origin`,
    /// whose text was parsed into `value`. It starts clean.
    pub fn new(origin: Origin, value: Value) -> (config: RWConfig)
        ensures
            config.source() == origin.source(),
            config.document() == tree_of(value),
            !config.dirty(),
    {
        RWConfig { origin, value, dirty: false }
    }

    /// The path of the file.
    pub fn path(&self) -> (path: &str)
        ensures
            path@ == self.source(),
    {
        self.origin.path()
    }

    /// The format of the file, as its extension gave it at load time.
    pub fn format(&self) -> (format: ConfigFormat)
        ensures
            ConfigFormat::of_path(self.source()) == Some(format),
    {
        self.origin.format()
    }

    /// The whole document, for rendering it.
    pub fn value(&self) -> (value: &Value)
        ensures
            tree_of(*value) == self.document(),
    {
        &self.value
    }

    /// The value at `path`, if there is one. Reading changes nothing.
    pub fn get(&self, path: &str) -> (found: Option<&Value>)
        ensures
            match found {
                Some(value) => read(self.document(), path@) == Some(tree_of(*value)),
                None => read(self.document(), path@) is None,
            },
    {
        crate::path::get(&self.value, path)
    }

    /// Writes `value` at `path` and marks the configuration dirty, whether or
    /// not the document holds the same value already. A refused write
    /// changes neither the document nor the mark.
    pub fn set(&mut self, path: &str, value: Value) -> (done: Result<(), Error>)
        ensures
            final(self).source() == old(self).source(),
            match refused(old(self).document(), path@) {
                None => {
                    &&& done is Ok
                    &&& final(self).document() == written(
                        old(self).document(),
                        path@,
                        tree_of(value),
                    )
                    &&& final(self).dirty()
                },
                Some(refusal) => {
                    &&& done matches Err(error) && error@ == Failure::Path(refusal.message())
                    &&& final(self).document() == old(self).document()
                    &&& final(self).dirty() == old(self).dirty()
                },
            },
            path@.len() == 0 ==> refused(old(self).document(), path@) == Some(Refusal::EmptyPath),
    {
        match crate::path::set(&mut self.value, path, value) {
            Ok(()) => {
                self.dirty = true;
                Ok(())
            },
            Err(error) => Err(error),
        }
    }

    /// Whether the document was changed since it was loaded or last saved.
    pub fn is_dirty(&self) -> (dirty: bool)
        ensures
            dirty == self.dirty(),
    {
        self.dirty
    }

    /// First step of saving: whether anything has to be written at all. A
    /// clean configuration asks for nothing.
    pub fn save_plan(&self) -> (plan: SavePlan)
        ensures
            plan == (if self.dirty() {
                SavePlan::Write
            } else {
                SavePlan::Nothing
            }),
    {
        if self.dirty {
            SavePlan::Write
        } else {
            SavePlan::Nothing
        }
    }

    /// Last step of saving, with the outcome of rendering the document and
    /// writing the file: after success the configuration is clean; after a
    /// failure it stays as it was, and the failure is handed on.
    pub fn save_done(&mut self, outcome: Result<(), Error>) -> (done: Result<(), Error>)
        ensures
            done == outcome,
            final(self).source() == old(self).source(),
            final(self).document() == old(self).document(),
            final(self).dirty() == (outcome is Err && old(self).dirty()),
    {
        if outcome.is_ok() {
            self.dirty = false;
        }
        outcome
    }
}

} // verus!
