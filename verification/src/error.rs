use vstd::prelude::*;

verus! {

/// Why a handshake step failed.
#[derive(Clone, Copy, Debug, PartialEq, Eq, Structural)]
pub enum PgWireError {
    /// A message arrived that the current round of the handshake does not expect.
    MalformedMessage,
    /// The verifier answered, and the answer was no.
    InvalidCredentials,
    /// The verifier could not answer.
    VerifierFailure,
    /// Sending or receiving failed at the protocol boundary.
    TransportFailure,
}

pub type PgWireResult<T> = Result<T, PgWireError>;

} // verus!
