//! The error taxonomy of a scan.

use vstd::prelude::*;

verus! {

/// Why a selected file failed the schema checks.
#[derive(Debug, Clone, Copy, PartialEq, Eq, Structural)]
pub enum SchemaIssue {
    /// The top level has no `services` mapping.
    MissingServices,
    /// A key of the `services` mapping has no string form.
    NonStringName,
}

/// A scan failure, carrying the path of the offending file.
///
/// Traversal-level problems (an unreadable directory, a broken link) are
/// skipped during the walk and never become a `ScanError`; these errors
/// arise only once a file has been selected for parsing.
#[derive(Debug, Clone)]
pub enum ScanError {
    /// The file could not be read after being selected.
    Io { path: String },
    /// The file is not valid YAML.
    Parse { path: String },
    /// The file is valid YAML but not a service manifest.
    Schema { path: String, issue: SchemaIssue },
}

/// The kind of a `ScanError`, with schema issues told apart, for contracts.
#[derive(Debug, Clone, Copy, PartialEq, Eq, Structural)]
pub enum ErrKind {
    Io,
    Parse,
    MissingServices,
    NonStringName,
}

/// An error reduced to its kind and the characters of its path.
pub open spec fn error_view(e: ScanError) -> (ErrKind, Seq<char>) {
    match e {
        ScanError::Io { path } => (ErrKind::Io, path@),
        ScanError::Parse { path } => (ErrKind::Parse, path@),
        ScanError::Schema { path, issue } => (
            match issue {
                SchemaIssue::MissingServices => ErrKind::MissingServices,
                SchemaIssue::NonStringName => ErrKind::NonStringName,
            },
            path@,
        ),
    }
}

impl ScanError {
    /// The path of the file the error concerns.
    pub fn path(&self) -> (r: &String)
        ensures
            r@ == error_view(*self).1,
    {
        match self {
            ScanError::Io { path } => path,
            ScanError::Parse { path } => path,
            ScanError::Schema { path, issue: _ } => path,
        }
    }
}

} // verus!
