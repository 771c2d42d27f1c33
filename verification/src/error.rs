use vstd::prelude::*;

verus! {

/// The failure taxonomy of the tool. A version mismatch is deliberately not
/// here: it is a warning, the one non-fatal condition in the system.
#[derive(Clone, Copy, Debug, PartialEq, Eq, Structural)]
pub enum MdBookRFCError {
    /// The handshake input was not a well-formed payload.
    Decode,
    /// A version string could not be parsed as a semantic version.
    VersionParse,
    /// The handshake output could not be written.
    Encode,
    /// A delegated external invocation failed to start or exited non-zero.
    DelegatedProcess,
    /// A directory could not be created or removed.
    Filesystem,
}

impl MdBookRFCError {
    /// A short human-readable description of the failure.
    pub fn message(&self) -> (r: String)
        ensures
            self is Decode ==> r@ == "could not decode the handshake payload"@,
            self is VersionParse ==> r@ == "could not parse a semantic version string"@,
            self is Encode ==> r@ == "could not encode the handshake payload"@,
            self is DelegatedProcess ==> r@ == "a delegated command failed"@,
            self is Filesystem ==> r@ == "a directory operation failed"@,
    {
        match self {
            MdBookRFCError::Decode => "could not decode the handshake payload".to_owned(),
            MdBookRFCError::VersionParse => "could not parse a semantic version string".to_owned(),
            MdBookRFCError::Encode => "could not encode the handshake payload".to_owned(),
            MdBookRFCError::DelegatedProcess => "a delegated command failed".to_owned(),
            MdBookRFCError::Filesystem => "a directory operation failed".to_owned(),
        }
    }
}

} // verus!
