//! The error type shared by the engine's fallible operations.

use vstd::prelude::*;

verus! {

/// An error raised by the engine or by the surrounding I/O layer.
///
/// Configuration errors are reported as `Other` with a human-readable
/// message. I/O failures are wrapped with the offending path so that the
/// caller can present a useful diagnostic; the engine itself never performs
/// I/O and only ever constructs `Other`.
#[derive(Debug)]
pub enum Error {
    /// An I/O failure described by the underlying error message.
    Io(String),
    /// An I/O failure together with the path or source it concerns.
    IoWithContext(String, String),
    /// A configuration or usage error with a ready diagnostic message.
    Other(String),
}

impl Error {
    /// The human-readable message carried by this error.
    pub fn message(&self) -> (r: String)
        ensures
            r@ == self.message_spec(),
    {
        match self {
            Error::Io(msg) => msg.clone(),
            Error::IoWithContext(source, msg) => {
                let mut out = source.clone();
                out.append(": ");
                out.append(msg.as_str());
                out
            },
            Error::Other(msg) => msg.clone(),
        }
    }

    /// What `message` returns for each variant.
    pub open spec fn message_spec(&self) -> Seq<char> {
        match self {
            Error::Io(msg) => msg@,
            Error::IoWithContext(source, msg) => source@ + ": "@ + msg@,
            Error::Other(msg) => msg@,
        }
    }
}

} // verus!
