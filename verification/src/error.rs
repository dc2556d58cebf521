//! What can go wrong when the metadata of a commit is read.

use vstd::prelude::*;

verus! {

/// The first thing found wrong with a trailer that is well-formed YAML.
#[derive(Clone, Copy, Debug, PartialEq, Eq, Structural)]
pub enum Fault {
    /// The trailer is not a mapping.
    NotMapping,
    /// `type` is missing or names no kind.
    Kind,
    /// `pr` is neither absent, null nor a URL.
    Pr,
    /// `fixes` is neither absent nor a sequence of URLs.
    Fixes,
    /// `co-authored-by` is neither absent, null nor text.
    CoAuthoredBy,
}

/// Why a trailer could not be decoded.
#[derive(Debug)]
pub enum Cause {
    /// The trailer is not YAML; the parser's diagnostic.
    Syntax(String),
    /// The trailer is YAML of the wrong shape.
    Shape(Fault),
}

/// Why no metadata could be read from a commit. Each error carries the
/// commit's identifier and its whole message.
#[derive(Debug)]
pub enum Error {
    /// The message holds no blank line, so it has no trailer.
    CommitMetadataMissing { hash: String, message: String },
    /// The trailer could not be decoded.
    CommitMetadataDeserialize { hash: String, message: String, cause: Cause },
}

} // verus!
