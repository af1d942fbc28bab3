//! Configuration resolution for a batch job launcher.
//!
//! A job's settings are assembled from layers: what the job declares itself,
//! the chain of presets it inherits from, the preset named `default`, and a
//! fixed built-in layer into which the command-line input items and output
//! path are spliced. Every layer only fills what the layers before it left
//! absent.

pub mod args;
pub mod config;
pub mod document;
pub mod error;
pub mod inherit;
pub mod scheme;

pub use crate::args::{split_args, Invocation};
pub use crate::config::Config;
pub use crate::document::Node;
pub use crate::error::{ConfigError, ErrorKind};
pub use crate::inherit::inherit_fill;
pub use crate::scheme::Scheme;
