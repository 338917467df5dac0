//! Errors of the command-line subcommands.

use vstd::prelude::*;

verus! {

/// Why a subcommand could not go on. Paths are given as strings.
#[derive(Debug, Clone, PartialEq, Eq)]
pub enum Error {
    PathNotFoundError(String),
    NonEmptyDirectoryError(String),
    NotDirectoryError(String),
    InvalidPackPathError(String),
    FeatureNotEnabledError(String),
    IncompatiblePackVersionError,
}

} // verus!
