//! Operator-supplied custom Cedar policies: where each came from, and the
//! errors of loading them.
use vstd::prelude::*;

verus! {

/// A filesystem path, as std represents it.
#[verifier::external_type_specification]
#[verifier::external_body]
pub struct ExPathBuf(std::path::PathBuf);

/// Origin metadata for a single custom policy file.
#[derive(Debug)]
pub struct CustomPolicySource {
    /// Absolute path to the `.cedar` file as it was loaded.
    pub path: std::path::PathBuf,
    /// Raw policy source text.
    pub text: String,
}

/// Errors raised while loading custom policies.
#[derive(Debug)]
pub enum LoaderError {
    /// The custom-policy directory could not be read.
    DirRead { path: String, source: std::io::Error },
    /// A `.cedar` file could not be read.
    FileRead { path: String, source: std::io::Error },
}

} // verus!
