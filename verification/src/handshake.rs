//! The handshake engine: the state of one attempt and the operations that
//! encode and decode the three messages, authenticate the peer and produce
//! the final keys.
//!
//! Every operation checks that it is called at its place in the exchange. An
//! operation called out of place is refused with `Invalid` and changes
//! nothing. A message that is malformed, that does not authenticate or that
//! repeats the message accepted last aborts the attempt: the engine drops its
//! key material and refuses everything from then on.

use vstd::prelude::*;
use crate::bytes::{append_bytes, bytes_eq, copy_range};
use crate::codec::views;
use crate::credential::{
    clone_credentials, context_view, spec_credentials_verdict, verify_credentials, Credential,
    CredentialView, TrustContext,
};
use crate::error::HandshakeError;
use crate::identity::{
    clone_bytes, spec_current_key, spec_verify_change_history, verify_change_history, Identity,
    IdentityView,
};
use crate::key_schedule::{
    spec_cleared, spec_fresh, spec_mix_hash, spec_mix_key, spec_open, spec_seal, spec_start,
    KeySchedule, KeyScheduleView,
};
use crate::payload::{
    spec_decode_payload, spec_encode_payload, IdentityAndCredentials, IdentityAndCredentialsView,
};
use crate::trust_policy::TrustPolicy;
use crate::vault::{XXVault, PUBLIC_KEY_SIZE};

verus! {

/// Which side of the handshake this is.
#[derive(Clone, Copy, Debug, PartialEq, Eq, Structural)]
pub enum Role {
    /// The side that sends the first message.
    Initiator,
    /// The side that answers it.
    Responder,
}

/// Where an attempt stands.
#[derive(Clone, Copy, Debug, PartialEq, Eq, Structural)]
pub enum Status {
    Initial,
    WaitingToSend1,
    WaitingForMessage1,
    WaitingToSend2,
    WaitingForMessage2,
    WaitingToSend3,
    WaitingForMessage3,
    /// All three messages are exchanged; the peer is yet to be accepted.
    WaitingToFinalize,
    /// The channel is established. Terminal.
    Done,
    /// The attempt was aborted. Terminal.
    Failed,
}

/// Length of an encrypted static public key.
pub const SEALED_KEY_SIZE: usize = 48;

/// The result of a handshake: one key per direction, the verified peer and
/// the role that this side played.
#[derive(Debug, PartialEq, Eq)]
pub struct FinalHandshakeState {
    pub encryption_key: Vec<u8>,
    pub decryption_key: Vec<u8>,
    pub their_identity: Identity,
    pub role: Role,
}

pub struct FinalHandshakeStateView {
    pub encryption_key: Seq<u8>,
    pub decryption_key: Seq<u8>,
    pub their_identity: IdentityView,
    pub role: Role,
}

impl View for FinalHandshakeState {
    type V = FinalHandshakeStateView;

    open spec fn view(&self) -> FinalHandshakeStateView {
        FinalHandshakeStateView {
            encryption_key: self.encryption_key@,
            decryption_key: self.decryption_key@,
            their_identity: self.their_identity@,
            role: self.role,
        }
    }
}

impl Clone for FinalHandshakeState {
    fn clone(&self) -> (copy: Self)
        ensures
            copy@ == self@,
    {
        FinalHandshakeState {
            encryption_key: clone_bytes(&self.encryption_key),
            decryption_key: clone_bytes(&self.decryption_key),
            their_identity: self.their_identity.clone(),
            role: self.role,
        }
    }
}

/// View of an optional final state.
pub open spec fn final_view(state: Option<FinalHandshakeState>) -> Option<
    FinalHandshakeStateView,
> {
    match state {
        Some(s) => Some(s@),
        None => None,
    }
}

/// How far an attempt has come, with the final state once it is done.
/// There is a final state exactly when the status is `Done`.
struct Progress {
    status: Status,
    final_state: Option<FinalHandshakeState>,
}

impl Progress {
    #[verifier::type_invariant]
    spec fn settled(self) -> bool {
        self.final_state is Some <==> self.status == Status::Done
    }

    closed spec fn status(self) -> Status {
        self.status
    }

    closed spec fn final_state(self) -> Option<FinalHandshakeStateView> {
        final_view(self.final_state)
    }

    fn start() -> (progress: Self)
        ensures
            progress.status() == Status::Initial,
            progress.final_state() is None,
    {
        Progress { status: Status::Initial, final_state: None }
    }

    fn get_status(&self) -> (status: Status)
        ensures
            status == self.status(),
            self.final_state() is Some <==> status == Status::Done,
    {
        proof {
            use_type_invariant(self);
        }
        self.status
    }

    /// Moves to a status in which the attempt is not done.
    fn move_to(&mut self, status: Status)
        requires
            status != Status::Done,
        ensures
            final(self).status() == status,
            final(self).final_state() is None,
    {
        *self = Progress { status, final_state: None };
    }

    /// Moves to `Done` with the final state.
    fn finish(&mut self, state: FinalHandshakeState)
        ensures
            final(self).status() == Status::Done,
            final(self).final_state() == Some(state@),
    {
        *self = Progress { status: Status::Done, final_state: Some(state) };
    }

    fn get_final_state(&self) -> (state: Option<FinalHandshakeState>)
        ensures
            final_view(state) == self.final_state(),
            state is Some <==> self.status() == Status::Done,
    {
        proof {
            use_type_invariant(self);
        }
        match &self.final_state {
            None => None,
            Some(state) => Some(state.clone()),
        }
    }
}

/// Everything that the course of an attempt depends on, apart from the vault
/// and the trust policy.
pub struct HandshakeView {
    pub role: Role,
    pub status: Status,
    pub keys: KeyScheduleView,
    /// The last message that was accepted.
    pub last_received: Option<Seq<u8>>,
    pub identity: IdentityView,
    pub proof: Seq<u8>,
    pub credentials: Seq<CredentialView>,
    pub trust_context: Option<Seq<IdentityView>>,
    pub final_state: Option<FinalHandshakeStateView>,
}

/// An attempt before anything has happened.
pub open spec fn spec_new(
    role: Role,
    s: Seq<u8>,
    e: Seq<u8>,
    identity: IdentityView,
    proof: Seq<u8>,
    credentials: Seq<CredentialView>,
    trust_context: Option<Seq<IdentityView>>,
) -> HandshakeView {
    HandshakeView {
        role,
        status: Status::Initial,
        keys: spec_fresh(s, e),
        last_received: None,
        identity,
        proof,
        credentials,
        trust_context,
        final_state: None,
    }
}

/// The state of an aborted attempt: no key material is left.
pub open spec fn spec_failed(state: HandshakeView) -> HandshakeView {
    HandshakeView { status: Status::Failed, keys: spec_cleared(), final_state: None, ..state }
}

/// What this side presents to its peer.
pub open spec fn spec_own_payload(state: HandshakeView) -> IdentityAndCredentialsView {
    IdentityAndCredentialsView {
        history: state.identity.history,
        proof: state.proof,
        credentials: state.credentials,
    }
}

pub open spec fn spec_initialize<V: XXVault>(vault: &V, state: HandshakeView) -> (
    HandshakeView,
    Result<(), HandshakeError>,
) {
    if state.status != Status::Initial {
        (state, Err(HandshakeError::Invalid))
    } else {
        (
            HandshakeView {
                status: match state.role {
                    Role::Initiator => Status::WaitingToSend1,
                    Role::Responder => Status::WaitingForMessage1,
                },
                keys: spec_start(vault, state.keys),
                ..state
            },
            Ok(()),
        )
    }
}

pub open spec fn spec_encode_message1<V: XXVault>(vault: &V, state: HandshakeView) -> (
    HandshakeView,
    Result<Seq<u8>, HandshakeError>,
) {
    if state.status != Status::WaitingToSend1 {
        (state, Err(HandshakeError::Invalid))
    } else {
        let public = vault.spec_public_key(state.keys.e);
        let keys = spec_mix_hash(vault, spec_mix_hash(vault, state.keys, public), Seq::empty());
        (HandshakeView { status: Status::WaitingForMessage2, keys, ..state }, Ok(public))
    }
}

pub open spec fn spec_decode_message1<V: XXVault>(
    vault: &V,
    state: HandshakeView,
    message: Seq<u8>,
) -> (HandshakeView, Result<(), HandshakeError>) {
    if state.status != Status::WaitingForMessage1 {
        (state, Err(HandshakeError::Invalid))
    } else if message.len() < PUBLIC_KEY_SIZE {
        (spec_failed(state), Err(HandshakeError::Invalid))
    } else {
        let re = message.subrange(0, PUBLIC_KEY_SIZE as int);
        let rest = message.subrange(PUBLIC_KEY_SIZE as int, message.len() as int);
        let keys = spec_mix_hash(
            vault,
            spec_mix_hash(vault, KeyScheduleView { re, ..state.keys }, re),
            rest,
        );
        (
            HandshakeView {
                status: Status::WaitingToSend2,
                keys,
                last_received: Some(message),
                ..state
            },
            Ok(()),
        )
    }
}

/// Writes the encrypted static key and the encrypted payload that close a
/// message: the schedule afterwards and the bytes written.
pub open spec fn spec_write_static_and_payload<V: XXVault>(
    vault: &V,
    keys: KeyScheduleView,
    payload: Seq<u8>,
) -> (KeyScheduleView, Seq<u8>) {
    let sealed_key = spec_seal(vault, keys, vault.spec_public_key(keys.s));
    let keys1 = spec_mix_hash(vault, keys, sealed_key);
    let keys2 = spec_mix_key(vault, keys1, vault.spec_dh(keys.s, keys.re));
    let sealed_payload = spec_seal(vault, keys2, payload);
    (spec_mix_hash(vault, keys2, sealed_payload), sealed_key + sealed_payload)
}

/// Reads the encrypted static key and the encrypted payload that close a
/// message: the schedule afterwards and the payload, `DecryptionFailed` where
/// either part does not authenticate, `Invalid` where the decrypted payload
/// is not the encoding of a payload.
pub open spec fn spec_read_static_and_payload<V: XXVault>(
    vault: &V,
    keys: KeyScheduleView,
    sealed_key: Seq<u8>,
    sealed_payload: Seq<u8>,
) -> Result<(KeyScheduleView, IdentityAndCredentialsView), HandshakeError> {
    match spec_open(vault, keys, sealed_key) {
        None => Err(HandshakeError::DecryptionFailed),
        Some(rs) => {
            let keys1 = KeyScheduleView { rs, ..spec_mix_hash(vault, keys, sealed_key) };
            let keys2 = spec_mix_key(vault, keys1, vault.spec_dh(keys.e, rs));
            match spec_open(vault, keys2, sealed_payload) {
                None => Err(HandshakeError::DecryptionFailed),
                Some(bytes) => match spec_decode_payload(bytes) {
                    None => Err(HandshakeError::Invalid),
                    Some(payload) => Ok((spec_mix_hash(vault, keys2, sealed_payload), payload)),
                },
            }
        },
    }
}

pub open spec fn spec_encode_message2<V: XXVault>(vault: &V, state: HandshakeView) -> (
    HandshakeView,
    Result<Seq<u8>, HandshakeError>,
) {
    if state.status != Status::WaitingToSend2 {
        (state, Err(HandshakeError::Invalid))
    } else {
        let public = vault.spec_public_key(state.keys.e);
        let keys1 = spec_mix_hash(vault, state.keys, public);
        let keys2 = spec_mix_key(vault, keys1, vault.spec_dh(state.keys.e, state.keys.re));
        let written = spec_write_static_and_payload(
            vault,
            keys2,
            spec_encode_payload(spec_own_payload(state)),
        );
        (
            HandshakeView { status: Status::WaitingForMessage3, keys: written.0, ..state },
            Ok(public + written.1),
        )
    }
}

pub open spec fn spec_decode_message2<V: XXVault>(
    vault: &V,
    state: HandshakeView,
    message: Seq<u8>,
) -> (HandshakeView, Result<IdentityAndCredentialsView, HandshakeError>) {
    if state.status != Status::WaitingForMessage2 {
        (state, Err(HandshakeError::Invalid))
    } else if state.last_received == Some(message) {
        (spec_failed(state), Err(HandshakeError::Invalid))
    } else if message.len() < PUBLIC_KEY_SIZE + SEALED_KEY_SIZE {
        (spec_failed(state), Err(HandshakeError::Invalid))
    } else {
        let re = message.subrange(0, PUBLIC_KEY_SIZE as int);
        let keys1 = spec_mix_hash(vault, KeyScheduleView { re, ..state.keys }, re);
        let keys2 = spec_mix_key(vault, keys1, vault.spec_dh(state.keys.e, re));
        match spec_read_static_and_payload(
            vault,
            keys2,
            message.subrange(PUBLIC_KEY_SIZE as int, PUBLIC_KEY_SIZE + SEALED_KEY_SIZE),
            message.subrange(PUBLIC_KEY_SIZE + SEALED_KEY_SIZE, message.len() as int),
        ) {
            Err(error) => (spec_failed(state), Err(error)),
            Ok((keys, payload)) => (
                HandshakeView {
                    status: Status::WaitingToSend3,
                    keys,
                    last_received: Some(message),
                    ..state
                },
                Ok(payload),
            ),
        }
    }
}

pub open spec fn spec_encode_message3<V: XXVault>(vault: &V, state: HandshakeView) -> (
    HandshakeView,
    Result<Seq<u8>, HandshakeError>,
) {
    if state.status != Status::WaitingToSend3 {
        (state, Err(HandshakeError::Invalid))
    } else {
        let written = spec_write_static_and_payload(
            vault,
            state.keys,
            spec_encode_payload(spec_own_payload(state)),
        );
        (
            HandshakeView { status: Status::WaitingToFinalize, keys: written.0, ..state },
            Ok(written.1),
        )
    }
}

pub open spec fn spec_decode_message3<V: XXVault>(
    vault: &V,
    state: HandshakeView,
    message: Seq<u8>,
) -> (HandshakeView, Result<IdentityAndCredentialsView, HandshakeError>) {
    if state.status != Status::WaitingForMessage3 {
        (state, Err(HandshakeError::Invalid))
    } else if state.last_received == Some(message) {
        (spec_failed(state), Err(HandshakeError::Invalid))
    } else if message.len() < SEALED_KEY_SIZE {
        (spec_failed(state), Err(HandshakeError::Invalid))
    } else {
        match spec_read_static_and_payload(
            vault,
            state.keys,
            message.subrange(0, SEALED_KEY_SIZE as int),
            message.subrange(SEALED_KEY_SIZE as int, message.len() as int),
        ) {
            Err(error) => (spec_failed(state), Err(error)),
            Ok((keys, payload)) => (
                HandshakeView {
                    status: Status::WaitingToFinalize,
                    keys,
                    last_received: Some(message),
                    ..state
                },
                Ok(payload),
            ),
        }
    }
}

/// The verdict on what a peer presented. The change history is verified
/// first, then the proof that the peer's static key belongs to the identity,
/// then each credential, and the trust policy is asked last, about an
/// identity that has passed everything else.
pub open spec fn spec_verify_identity<V: XXVault, P: TrustPolicy>(
    vault: &V,
    policy: &P,
    trust_context: Option<Seq<IdentityView>>,
    peer_static_key: Seq<u8>,
    payload: IdentityAndCredentialsView,
    now: u64,
) -> Result<IdentityView, HandshakeError> {
    match spec_verify_change_history(vault, payload.history) {
        Err(error) => Err(error),
        Ok(identity) => if !vault.spec_verify(
            spec_current_key(identity.history),
            peer_static_key,
            payload.proof,
        ) {
            Err(HandshakeError::InvalidSignature)
        } else {
            match spec_credentials_verdict(
                vault,
                payload.credentials,
                identity.identifier,
                trust_context,
                now,
            ) {
                Some(error) => Err(error),
                None => if policy.spec_check(identity) {
                    Ok(identity)
                } else {
                    Err(HandshakeError::PolicyRejected)
                },
            }
        },
    }
}

/// The final state that an attempt with chaining key `ck` yields. The first
/// derived key carries what the initiator sends, the second what the
/// responder sends.
pub open spec fn spec_final_state<V: XXVault>(
    vault: &V,
    ck: Seq<u8>,
    their_identity: IdentityView,
    role: Role,
) -> FinalHandshakeStateView {
    let derived = vault.spec_hkdf(ck, Seq::empty());
    match role {
        Role::Initiator => FinalHandshakeStateView {
            encryption_key: derived.0,
            decryption_key: derived.1,
            their_identity,
            role,
        },
        Role::Responder => FinalHandshakeStateView {
            encryption_key: derived.1,
            decryption_key: derived.0,
            their_identity,
            role,
        },
    }
}

pub open spec fn spec_set_final_state<V: XXVault>(
    vault: &V,
    state: HandshakeView,
    their_identity: IdentityView,
    role: Role,
) -> (HandshakeView, Result<FinalHandshakeStateView, HandshakeError>) {
    if state.status != Status::WaitingToFinalize || role != state.role {
        (state, Err(HandshakeError::Invalid))
    } else {
        let result = spec_final_state(vault, state.keys.ck, their_identity, role);
        (
            HandshakeView {
                status: Status::Done,
                keys: spec_cleared(),
                final_state: Some(result),
                ..state
            },
            Ok(result),
        )
    }
}

/// Views of the results that the operations return.
pub open spec fn bytes_result(r: Result<Vec<u8>, HandshakeError>) -> Result<
    Seq<u8>,
    HandshakeError,
> {
    match r {
        Ok(bytes) => Ok(bytes@),
        Err(error) => Err(error),
    }
}

pub open spec fn payload_result(r: Result<IdentityAndCredentials, HandshakeError>) -> Result<
    IdentityAndCredentialsView,
    HandshakeError,
> {
    match r {
        Ok(payload) => Ok(payload@),
        Err(error) => Err(error),
    }
}

pub open spec fn identity_result(r: Result<Identity, HandshakeError>) -> Result<
    IdentityView,
    HandshakeError,
> {
    match r {
        Ok(identity) => Ok(identity@),
        Err(error) => Err(error),
    }
}

pub open spec fn final_result(r: Result<FinalHandshakeState, HandshakeError>) -> Result<
    FinalHandshakeStateView,
    HandshakeError,
> {
    match r {
        Ok(state) => Ok(state@),
        Err(error) => Err(error),
    }
}

/// The state of one handshake attempt, with the vault that computes for it
/// and the trust policy that decides for it.
pub struct Handshake<V: XXVault, P: TrustPolicy> {
    vault: V,
    trust_policy: P,
    trust_context: Option<TrustContext>,
    role: Role,
    progress: Progress,
    keys: KeySchedule,
    last_received: Option<Vec<u8>>,
    identity: Identity,
    proof: Vec<u8>,
    credentials: Vec<Credential>,
}

impl<V: XXVault, P: TrustPolicy> View for Handshake<V, P> {
    type V = HandshakeView;

    closed spec fn view(&self) -> HandshakeView {
        HandshakeView {
            role: self.role,
            status: self.progress.status(),
            keys: self.keys@,
            last_received: match self.last_received {
                Some(message) => Some(message@),
                None => None,
            },
            identity: self.identity@,
            proof: self.proof@,
            credentials: views(self.credentials@),
            trust_context: context_view(self.trust_context),
            final_state: self.progress.final_state(),
        }
    }
}

impl<V: XXVault, P: TrustPolicy> Handshake<V, P> {
    /// The vault of this attempt.
    pub closed spec fn vault(self) -> V {
        self.vault
    }

    /// The trust policy of this attempt.
    pub closed spec fn trust_policy(self) -> P {
        self.trust_policy
    }

    /// Whether this state computes with the vault and decides with the
    /// policy of an earlier state.
    pub open spec fn continues(self, earlier: Self) -> bool {
        &&& self.vault() == earlier.vault()
        &&& self.trust_policy() == earlier.trust_policy()
    }

    /// A fresh attempt with given secrets. `proof` is the signature of the
    /// public key of `static_secret` under the current key of `identity`.
    pub fn with_keys(
        role: Role,
        vault: V,
        static_secret: Vec<u8>,
        ephemeral_secret: Vec<u8>,
        identity: Identity,
        proof: Vec<u8>,
        credentials: Vec<Credential>,
        trust_policy: P,
        trust_context: Option<TrustContext>,
    ) -> (handshake: Self)
        ensures
            handshake.vault() == vault,
            handshake.trust_policy() == trust_policy,
            handshake@ == spec_new(
                role,
                static_secret@,
                ephemeral_secret@,
                identity@,
                proof@,
                views(credentials@),
                context_view(trust_context),
            ),
    {
        Handshake {
            vault,
            trust_policy,
            trust_context,
            role,
            progress: Progress::start(),
            keys: KeySchedule::fresh(static_secret, ephemeral_secret),
            last_received: None,
            identity,
            proof,
            credentials,
        }
    }

    /// A fresh attempt. The vault supplies a static and an ephemeral secret,
    /// and `signing_key`, the current secret key of `identity`, signs the
    /// public key of the static secret.
    pub fn new(
        role: Role,
        vault: V,
        identity: Identity,
        signing_key: &[u8],
        credentials: Vec<Credential>,
        trust_policy: P,
        trust_context: Option<TrustContext>,
    ) -> (handshake: Self)
        ensures
            handshake.vault() == vault,
            handshake.trust_policy() == trust_policy,
            handshake@ == spec_new(
                role,
                handshake@.keys.s,
                handshake@.keys.e,
                identity@,
                vault.spec_sign(signing_key@, vault.spec_public_key(handshake@.keys.s)),
                views(credentials@),
                context_view(trust_context),
            ),
    {
        let static_secret = vault.generate_secret();
        let ephemeral_secret = vault.generate_secret();
        let public = vault.public_key(static_secret.as_slice());
        let proof = vault.sign(signing_key, public.as_slice());
        Self::with_keys(
            role,
            vault,
            static_secret,
            ephemeral_secret,
            identity,
            proof,
            credentials,
            trust_policy,
            trust_context,
        )
    }

    pub fn status(&self) -> (status: Status)
        ensures
            status == self@.status,
            self@.final_state is Some <==> status == Status::Done,
    {
        self.progress.get_status()
    }

    pub fn role(&self) -> (role: Role)
        ensures
            role == self@.role,
    {
        self.role
    }

    /// Aborts the attempt and drops its key material.
    pub fn abort(&mut self)
        ensures
            final(self).continues(*old(self)),
            final(self)@ == spec_failed(old(self)@),
    {
        self.progress.move_to(Status::Failed);
        self.keys.clear();
    }

    /// Whether `message` is the message that was accepted last.
    fn is_replay(&self, message: &Vec<u8>) -> (r: bool)
        ensures
            r == (self@.last_received == Some(message@)),
    {
        match &self.last_received {
            None => false,
            Some(last) => bytes_eq(last.as_slice(), message.as_slice()),
        }
    }

    /// The encoding of what this side presents to its peer.
    fn own_payload(&self) -> (bytes: Vec<u8>)
        ensures
            bytes@ == spec_encode_payload(spec_own_payload(self@)),
    {
        let payload = IdentityAndCredentials {
            change_history: self.identity.change_history().clone(),
            proof: clone_bytes(&self.proof),
            credentials: clone_credentials(&self.credentials),
        };
        payload.encode()
    }

    /// Sets up the symmetric state from the protocol's constants.
    pub fn initialize(&mut self) -> (r: Result<(), HandshakeError>)
        ensures
            final(self).continues(*old(self)),
            (final(self)@, r) == spec_initialize(&old(self).vault(), old(self)@),
    {
        if self.progress.get_status() != Status::Initial {
            return Err(HandshakeError::Invalid);
        }
        self.keys.start(&self.vault);
        self.progress.move_to(
            match self.role {
                Role::Initiator => Status::WaitingToSend1,
                Role::Responder => Status::WaitingForMessage1,
            },
        );
        Ok(())
    }

    /// The first message: the initiator's ephemeral public key.
    pub fn encode_message1(&mut self) -> (r: Result<Vec<u8>, HandshakeError>)
        ensures
            final(self).continues(*old(self)),
            (final(self)@, bytes_result(r)) == spec_encode_message1(
                &old(self).vault(),
                old(self)@,
            ),
    {
        if self.progress.get_status() != Status::WaitingToSend1 {
            return Err(HandshakeError::Invalid);
        }
        let public = self.vault.public_key(self.keys.e.as_slice());
        self.keys.mix_hash(&self.vault, public.as_slice());
        let nothing: Vec<u8> = Vec::new();
        self.keys.mix_hash(&self.vault, nothing.as_slice());
        self.progress.move_to(Status::WaitingForMessage2);
        Ok(public)
    }

    /// Reads the initiator's ephemeral public key from the first message.
    pub fn decode_message1(&mut self, message: Vec<u8>) -> (r: Result<(), HandshakeError>)
        ensures
            final(self).continues(*old(self)),
            (final(self)@, r) == spec_decode_message1(&old(self).vault(), old(self)@, message@),
    {
        if self.progress.get_status() != Status::WaitingForMessage1 {
            return Err(HandshakeError::Invalid);
        }
        if message.len() < PUBLIC_KEY_SIZE {
            self.abort();
            return Err(HandshakeError::Invalid);
        }
        let re = copy_range(message.as_slice(), 0, PUBLIC_KEY_SIZE);
        let rest = copy_range(message.as_slice(), PUBLIC_KEY_SIZE, message.len());
        self.keys.mix_hash(&self.vault, re.as_slice());
        self.keys.re = re;
        self.keys.mix_hash(&self.vault, rest.as_slice());
        self.progress.move_to(Status::WaitingToSend2);
        self.last_received = Some(message);
        Ok(())
    }

    /// Encrypts this side's static key and payload onto the end of `message`.
    fn write_static_and_payload(&mut self, message: &mut Vec<u8>)
        ensures
            final(self).continues(*old(self)),
            (final(self)@.keys, final(message)@) == ({
                let written = spec_write_static_and_payload(
                    &old(self).vault(),
                    old(self)@.keys,
                    spec_encode_payload(spec_own_payload(old(self)@)),
                );
                (written.0, old(message)@ + written.1)
            }),
            final(self)@ == (HandshakeView { keys: final(self)@.keys, ..old(self)@ }),
    {
        let payload = self.own_payload();
        let public = self.vault.public_key(self.keys.s.as_slice());
        let sealed_key = self.keys.encrypt_and_hash(&self.vault, public.as_slice());
        let shared = self.vault.dh(self.keys.s.as_slice(), self.keys.re.as_slice());
        self.keys.mix_key(&self.vault, shared.as_slice());
        let sealed_payload = self.keys.encrypt_and_hash(&self.vault, payload.as_slice());
        let ghost start = message@;
        append_bytes(message, sealed_key.as_slice());
        append_bytes(message, sealed_payload.as_slice());
        assert(message@ =~= start + (sealed_key@ + sealed_payload@));
    }

    /// Decrypts the peer's static key and payload.
    fn read_static_and_payload(&mut self, sealed_key: &[u8], sealed_payload: &[u8]) -> (r: Result<
        IdentityAndCredentials,
        HandshakeError,
    >)
        ensures
            final(self).continues(*old(self)),
            match r {
                Ok(payload) => spec_read_static_and_payload(
                    &old(self).vault(),
                    old(self)@.keys,
                    sealed_key@,
                    sealed_payload@,
                ) == Ok::<(KeyScheduleView, IdentityAndCredentialsView), HandshakeError>(
                    (final(self)@.keys, payload@),
                ) && final(self)@ == (HandshakeView { keys: final(self)@.keys, ..old(self)@ }),
                Err(error) => spec_read_static_and_payload(
                    &old(self).vault(),
                    old(self)@.keys,
                    sealed_key@,
                    sealed_payload@,
                ) == Err::<(KeyScheduleView, IdentityAndCredentialsView), HandshakeError>(error)
                    && final(self)@ == spec_failed(old(self)@),
            },
    {
        let rs = match self.keys.decrypt_and_hash(&self.vault, sealed_key) {
            None => {
                self.abort();
                return Err(HandshakeError::DecryptionFailed);
            },
            Some(key) => key,
        };
        self.keys.rs = rs;
        let shared = self.vault.dh(self.keys.e.as_slice(), self.keys.rs.as_slice());
        self.keys.mix_key(&self.vault, shared.as_slice());
        let bytes = match self.keys.decrypt_and_hash(&self.vault, sealed_payload) {
            None => {
                self.abort();
                return Err(HandshakeError::DecryptionFailed);
            },
            Some(bytes) => bytes,
        };
        match IdentityAndCredentials::decode(bytes.as_slice()) {
            None => {
                self.abort();
                Err(HandshakeError::Invalid)
            },
            Some(payload) => Ok(payload),
        }
    }

    /// The second message: the responder's ephemeral public key, its
    /// encrypted static key and its encrypted identity and credentials.
    pub fn encode_message2(&mut self) -> (r: Result<Vec<u8>, HandshakeError>)
        ensures
            final(self).continues(*old(self)),
            (final(self)@, bytes_result(r)) == spec_encode_message2(
                &old(self).vault(),
                old(self)@,
            ),
    {
        if self.progress.get_status() != Status::WaitingToSend2 {
            return Err(HandshakeError::Invalid);
        }
        let public = self.vault.public_key(self.keys.e.as_slice());
        self.keys.mix_hash(&self.vault, public.as_slice());
        let shared = self.vault.dh(self.keys.e.as_slice(), self.keys.re.as_slice());
        self.keys.mix_key(&self.vault, shared.as_slice());
        let mut message = public;
        self.write_static_and_payload(&mut message);
        self.progress.move_to(Status::WaitingForMessage3);
        Ok(message)
    }

    /// Decrypts the second message and returns what the responder presents.
    pub fn decode_message2(&mut self, message: Vec<u8>) -> (r: Result<
        IdentityAndCredentials,
        HandshakeError,
    >)
        ensures
            final(self).continues(*old(self)),
            (final(self)@, payload_result(r)) == spec_decode_message2(
                &old(self).vault(),
                old(self)@,
                message@,
            ),
    {
        if self.progress.get_status() != Status::WaitingForMessage2 {
            return Err(HandshakeError::Invalid);
        }
        if self.is_replay(&message) {
            self.abort();
            return Err(HandshakeError::Invalid);
        }
        if message.len() < PUBLIC_KEY_SIZE + SEALED_KEY_SIZE {
            self.abort();
            return Err(HandshakeError::Invalid);
        }
        let re = copy_range(message.as_slice(), 0, PUBLIC_KEY_SIZE);
        let sealed_key = copy_range(
            message.as_slice(),
            PUBLIC_KEY_SIZE,
            PUBLIC_KEY_SIZE + SEALED_KEY_SIZE,
        );
        let sealed_payload = copy_range(
            message.as_slice(),
            PUBLIC_KEY_SIZE + SEALED_KEY_SIZE,
            message.len(),
        );
        self.keys.mix_hash(&self.vault, re.as_slice());
        self.keys.re = re;
        let shared = self.vault.dh(self.keys.e.as_slice(), self.keys.re.as_slice());
        self.keys.mix_key(&self.vault, shared.as_slice());
        match self.read_static_and_payload(sealed_key.as_slice(), sealed_payload.as_slice()) {
            Err(error) => Err(error),
            Ok(payload) => {
                self.progress.move_to(Status::WaitingToSend3);
                self.last_received = Some(message);
                Ok(payload)
            },
        }
    }

    /// The third message: the initiator's encrypted static key and its
    /// encrypted identity and credentials.
    pub fn encode_message3(&mut self) -> (r: Result<Vec<u8>, HandshakeError>)
        ensures
            final(self).continues(*old(self)),
            (final(self)@, bytes_result(r)) == spec_encode_message3(
                &old(self).vault(),
                old(self)@,
            ),
    {
        if self.progress.get_status() != Status::WaitingToSend3 {
            return Err(HandshakeError::Invalid);
        }
        let mut message: Vec<u8> = Vec::new();
        self.write_static_and_payload(&mut message);
        self.progress.move_to(Status::WaitingToFinalize);
        Ok(message)
    }

    /// Decrypts the third message and returns what the initiator presents.
    pub fn decode_message3(&mut self, message: Vec<u8>) -> (r: Result<
        IdentityAndCredentials,
        HandshakeError,
    >)
        ensures
            final(self).continues(*old(self)),
            (final(self)@, payload_result(r)) == spec_decode_message3(
                &old(self).vault(),
                old(self)@,
                message@,
            ),
    {
        if self.progress.get_status() != Status::WaitingForMessage3 {
            return Err(HandshakeError::Invalid);
        }
        if self.is_replay(&message) {
            self.abort();
            return Err(HandshakeError::Invalid);
        }
        if message.len() < SEALED_KEY_SIZE {
            self.abort();
            return Err(HandshakeError::Invalid);
        }
        let sealed_key = copy_range(message.as_slice(), 0, SEALED_KEY_SIZE);
        let sealed_payload = copy_range(message.as_slice(), SEALED_KEY_SIZE, message.len());
        match self.read_static_and_payload(sealed_key.as_slice(), sealed_payload.as_slice()) {
            Err(error) => Err(error),
            Ok(payload) => {
                self.progress.move_to(Status::WaitingToFinalize);
                self.last_received = Some(message);
                Ok(payload)
            },
        }
    }

    /// Authenticates and authorizes the peer that presented `payload` at
    /// time `now`, and returns its identity.
    ///
    /// The first check that fails decides the error: the change history, the
    /// proof that the peer's static key is the identity's (`InvalidSignature`),
    /// the credentials, and last the trust policy (`PolicyRejected`), which is
    /// never asked about a peer that failed any of the others.
    pub fn verify_identity(&self, payload: IdentityAndCredentials, now: u64) -> (r: Result<
        Identity,
        HandshakeError,
    >)
        ensures
            identity_result(r) == spec_verify_identity(
                &self.vault(),
                &self.trust_policy(),
                self@.trust_context,
                self@.keys.rs,
                payload@,
                now,
            ),
    {
        let identity = match verify_change_history(&self.vault, payload.change_history) {
            Err(error) => {
                return Err(error);
            },
            Ok(identity) => identity,
        };
        if !self.vault.verify(
            identity.current_key().as_slice(),
            self.keys.rs.as_slice(),
            payload.proof.as_slice(),
        ) {
            return Err(HandshakeError::InvalidSignature);
        }
        match verify_credentials(
            &self.vault,
            &payload.credentials,
            identity.identifier(),
            &self.trust_context,
            now,
        ) {
            Err(error) => {
                return Err(error);
            },
            Ok(_) => {},
        }
        if !self.trust_policy.check(&identity) {
            return Err(HandshakeError::PolicyRejected);
        }
        Ok(identity)
    }

    /// Derives the two directional keys, records the final state and drops
    /// the key material of the exchange.
    pub fn set_final_state(&mut self, their_identity: Identity, role: Role) -> (r: Result<
        FinalHandshakeState,
        HandshakeError,
    >)
        ensures
            final(self).continues(*old(self)),
            (final(self)@, final_result(r)) == spec_set_final_state(
                &old(self).vault(),
                old(self)@,
                their_identity@,
                role,
            ),
    {
        if self.progress.get_status() != Status::WaitingToFinalize || role != self.role {
            return Err(HandshakeError::Invalid);
        }
        let nothing: Vec<u8> = Vec::new();
        let (first, second) = self.vault.hkdf(self.keys.ck.as_slice(), nothing.as_slice());
        let result = match role {
            Role::Initiator => FinalHandshakeState {
                encryption_key: first,
                decryption_key: second,
                their_identity,
                role,
            },
            Role::Responder => FinalHandshakeState {
                encryption_key: second,
                decryption_key: first,
                their_identity,
                role,
            },
        };
        self.progress.finish(result.clone());
        self.keys.clear();
        Ok(result)
    }

    /// The final state, once the attempt is done; `None` in every other
    /// status.
    pub fn get_final_state(&self) -> (state: Option<FinalHandshakeState>)
        ensures
            final_view(state) == self@.final_state,
            state is Some <==> self@.status == Status::Done,
    {
        self.progress.get_final_state()
    }
}

} // verus!
