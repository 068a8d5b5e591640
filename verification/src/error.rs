//! Fatal errors of the engine: configuration-level failures that abort an
//! operation, as opposed to per-entry failures that a scan skips over.
use vstd::prelude::*;

verus! {

/// A fatal failure of one of the engine's operations.
#[derive(Debug)]
pub enum Error {
    /// The platform cache directory could not be located.
    CacheDirUnavailable,
    /// The given path could not be canonicalized to an absolute path.
    PathResolution { path: String },
    /// A user-supplied glob pattern could not be compiled.
    InvalidGlob { pattern: String },
}

impl Error {
    /// A human-readable description of the error.
    pub fn message(&self) -> (r: String)
        ensures
            match self {
                Error::CacheDirUnavailable => r@ == "could not find the cache directory"@,
                Error::PathResolution { path } => r@ == "could not resolve path: "@ + path@,
                Error::InvalidGlob { pattern } => r@ == "invalid glob pattern: "@ + pattern@,
            },
    {
        match self {
            Error::CacheDirUnavailable => String::from_str("could not find the cache directory"),
            Error::PathResolution { path } => {
                let mut s = String::from_str("could not resolve path: ");
                s.append(path.as_str());
                s
            },
            Error::InvalidGlob { pattern } => {
                let mut s = String::from_str("invalid glob pattern: ");
                s.append(pattern.as_str());
                s
            },
        }
    }
}

} // verus!
