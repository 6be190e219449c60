//! The values exchanged with the MLS layer: opaque wire messages, what
//! processing an inbound message yields, and its errors.

use vstd::prelude::*;
use crate::text::concat_str;

verus! {

/// Opaque MLS Commit bytes (advances the group epoch).
pub struct Commit(pub Vec<u8>);

/// Opaque MLS Welcome bytes (bootstraps a newly added member).
pub struct Welcome(pub Vec<u8>);

/// Opaque MLS application-message ciphertext.
pub struct Ciphertext(pub Vec<u8>);

/// Result of processing an inbound MLS message.
pub enum DecryptOutcome {
    /// A decrypted application message (plaintext bytes).
    Application(Vec<u8>),
    /// A Commit was applied; the group advanced to a new epoch.
    CommitApplied,
    /// A proposal or other control message that produced no plaintext.
    Other,
}

/// Errors from MLS operations.
pub enum MlsError {
    /// A protocol-level error from the MLS engine.
    Protocol(String),
    /// Wire bytes could not be (de)serialized.
    Codec(String),
    /// The referenced group is not in local storage.
    UnknownGroup,
    /// Engine state could not be (de)serialized.
    State(String),
}

/// The text of an MLS error.
pub open spec fn mls_error_text(e: MlsError) -> Seq<char> {
    match e {
        MlsError::Protocol(m) => "mls protocol error: "@ + m@,
        MlsError::Codec(m) => "mls codec error: "@ + m@,
        MlsError::UnknownGroup => "unknown group"@,
        MlsError::State(m) => "engine state (de)serialization failed: "@ + m@,
    }
}

impl MlsError {
    /// The error's message.
    pub fn message(&self) -> (s: String)
        ensures
            s@ == mls_error_text(*self),
    {
        match self {
            MlsError::Protocol(m) => concat_str("mls protocol error: ", m.as_str()),
            MlsError::Codec(m) => concat_str("mls codec error: ", m.as_str()),
            MlsError::UnknownGroup => "unknown group".to_owned(),
            MlsError::State(m) => concat_str("engine state (de)serialization failed: ", m.as_str()),
        }
    }
}

} // verus!
