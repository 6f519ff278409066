//! A configuration file held in memory, with dirty tracking.
//!
//! A [`RWConfig`] holds the parsed document of a configuration file. Values
//! are read and written by dot paths such as `"server.port"`; every
//! successful write marks the configuration dirty, and saving asks for a
//! write of the file only when it is dirty.
//!
//! The crate itself touches no file and parses no text: the caller reads
//! and parses, renders and writes, in the steps that [`Origin`] and
//! [`RWConfig`] lay down.

pub mod config;
pub mod error;
pub mod format;
pub mod json;
pub mod keys;
pub mod path;
pub mod text;
pub mod tree;

pub use config::{Origin, RWConfig, SavePlan};
pub use error::Error;
pub use format::ConfigFormat;
pub use serde_json::Value;
