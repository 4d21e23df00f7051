//! Discovery of container service manifests.
//!
//! The crate scans a list of filesystem entries for compose-style YAML
//! manifests, parses each candidate into a generic document tree, and
//! extracts one record per service that declares an `image` field.

pub mod config;
pub mod document;
pub mod errors;
pub mod extract;
pub mod features;
pub mod loader;
pub mod response;
pub mod walk;
