//! Errors of the handshake and the taxonomy a caller uses to react to them.

use vstd::prelude::*;

verus! {

/// Everything that can abort a handshake attempt.
#[derive(Clone, Copy, Debug, PartialEq, Eq, Structural)]
pub enum HandshakeError {
    /// Wrong event for the current state, malformed message bytes, or a
    /// message delivered out of order or twice.
    Invalid,
    /// The change history holds no change.
    EmptyHistory,
    /// A change does not link to the change before it.
    BrokenChain,
    /// A signature of a change, of an identity proof or of a credential does
    /// not verify.
    InvalidSignature,
    /// An encrypted part of a message failed authenticated decryption.
    DecryptionFailed,
    /// A credential expired before the handshake.
    Expired,
    /// A credential was issued by an identity that the trust context does not
    /// accept, or there is no trust context to accept it.
    UnknownIssuer,
    /// A credential was issued for another identity than the authenticated peer.
    SubjectMismatch,
    /// The peer is who it claims to be, but the trust policy does not admit it.
    PolicyRejected,
}

/// What went wrong, as far as the caller's reaction depends on it.
#[derive(Clone, Copy, Debug, PartialEq, Eq, Structural)]
pub enum ErrorKind {
    /// The exchange itself went wrong; a fresh attempt may succeed.
    Protocol,
    /// The peer could not prove what it claimed.
    Authentication,
    /// The peer proved its identity and is not allowed on this channel.
    Authorization,
}

impl HandshakeError {
    pub open spec fn spec_kind(self) -> ErrorKind {
        match self {
            HandshakeError::Invalid => ErrorKind::Protocol,
            HandshakeError::PolicyRejected => ErrorKind::Authorization,
            _ => ErrorKind::Authentication,
        }
    }

    /// The class of this error. Expiry counts as an authentication failure.
    #[verifier::when_used_as_spec(spec_kind)]
    pub fn kind(self) -> (k: ErrorKind)
        ensures
            k == self.spec_kind(),
    {
        match self {
            HandshakeError::Invalid => ErrorKind::Protocol,
            HandshakeError::PolicyRejected => ErrorKind::Authorization,
            _ => ErrorKind::Authentication,
        }
    }

    /// Whether restarting the handshake from scratch is a sensible reaction:
    /// true of protocol errors only. Authentication and authorization
    /// failures are security events.
    pub fn may_retry(self) -> (r: bool)
        ensures
            r == (self.spec_kind() == ErrorKind::Protocol),
    {
        match self.kind() {
            ErrorKind::Protocol => true,
            _ => false,
        }
    }

    /// Whether the peer's identity may be recorded as verified alongside this
    /// error: true only when the access decision failed after authentication
    /// had succeeded.
    pub fn peer_is_authenticated(self) -> (r: bool)
        ensures
            r == (self == HandshakeError::PolicyRejected),
    {
        match self {
            HandshakeError::PolicyRejected => true,
            _ => false,
        }
    }
}

} // verus!
