//! The initiator's side of the handshake: it sends the first message, and on
//! the second it authenticates the responder, sends the third and finishes.

use vstd::prelude::*;
use crate::codec::views;
use crate::credential::{context_view, Credential, TrustContext};
use crate::error::HandshakeError;
use crate::handshake::{
    final_view, spec_decode_message2, spec_encode_message1, spec_encode_message3, spec_failed,
    spec_initialize, spec_new, spec_set_final_state, spec_verify_identity, FinalHandshakeState,
    Handshake, HandshakeView, Role, Status,
};
use crate::handshake_state_machine::{
    action_result, Action, ActionView, Event, EventView, StateMachine,
};
use crate::identity::Identity;
use crate::trust_policy::TrustPolicy;
use crate::vault::XXVault;

verus! {

/// What the initiator does when the attempt starts: it sets up its state and
/// sends the first message at once.
pub open spec fn spec_initiator_on_initialize<V: XXVault>(vault: &V, state: HandshakeView) -> (
    HandshakeView,
    Result<ActionView, HandshakeError>,
) {
    let started = spec_initialize(vault, state);
    match started.1 {
        Err(error) => (started.0, Err(error)),
        Ok(_) => {
            let encoded = spec_encode_message1(vault, started.0);
            match encoded.1 {
                Err(error) => (spec_failed(encoded.0), Err(error)),
                Ok(message) => (encoded.0, Ok(ActionView::SendMessage(message))),
            }
        },
    }
}

/// What the initiator does with a message that arrives while it waits for
/// the second one: it decrypts what the responder presents, verifies it,
/// and only then encodes the third message and produces the final state.
pub open spec fn spec_initiator_on_message2<V: XXVault, P: TrustPolicy>(
    vault: &V,
    policy: &P,
    state: HandshakeView,
    message: Seq<u8>,
    now: u64,
) -> (HandshakeView, Result<ActionView, HandshakeError>) {
    let decoded = spec_decode_message2(vault, state, message);
    match decoded.1 {
        Err(error) => (decoded.0, Err(error)),
        Ok(payload) => match spec_verify_identity(
            vault,
            policy,
            decoded.0.trust_context,
            decoded.0.keys.rs,
            payload,
            now,
        ) {
            Err(error) => (spec_failed(decoded.0), Err(error)),
            Ok(identity) => {
                let encoded = spec_encode_message3(vault, decoded.0);
                match encoded.1 {
                    Err(error) => (spec_failed(encoded.0), Err(error)),
                    Ok(answer) => {
                        let finished = spec_set_final_state(
                            vault,
                            encoded.0,
                            identity,
                            Role::Initiator,
                        );
                        match finished.1 {
                            Err(error) => (spec_failed(finished.0), Err(error)),
                            Ok(_) => (finished.0, Ok(ActionView::SendMessage(answer))),
                        }
                    },
                }
            },
        },
    }
}

/// The initiator's transition function: the state after an event and what
/// the event is answered with.
pub open spec fn spec_initiator_step<V: XXVault, P: TrustPolicy>(
    vault: &V,
    policy: &P,
    state: HandshakeView,
    event: EventView,
    now: u64,
) -> (HandshakeView, Result<ActionView, HandshakeError>) {
    match event {
        EventView::Initialize => spec_initiator_on_initialize(vault, state),
        EventView::ReceivedMessage(message) => if state.status == Status::WaitingForMessage2 {
            spec_initiator_on_message2(vault, policy, state, message, now)
        } else {
            (state, Err(HandshakeError::Invalid))
        },
    }
}

/// The state machine of the side that starts.
pub struct InitiatorStateMachine<V: XXVault, P: TrustPolicy> {
    handshake: Handshake<V, P>,
}

impl<V: XXVault, P: TrustPolicy> View for InitiatorStateMachine<V, P> {
    type V = HandshakeView;

    closed spec fn view(&self) -> HandshakeView {
        self.handshake@
    }
}

impl<V: XXVault, P: TrustPolicy> InitiatorStateMachine<V, P> {
    pub closed spec fn vault(self) -> V {
        self.handshake.vault()
    }

    pub closed spec fn trust_policy(self) -> P {
        self.handshake.trust_policy()
    }

    /// Whether this state computes with the vault and decides with the
    /// policy of an earlier state, in the same role.
    pub open spec fn continues(self, earlier: Self) -> bool {
        &&& self.vault() == earlier.vault()
        &&& self.trust_policy() == earlier.trust_policy()
        &&& self@.role == earlier@.role
    }

    /// Whether the machine plays the role that it is made for. Every
    /// machine is made in its role and keeps it through every event.
    pub open spec fn in_role(self) -> bool {
        self@.role == Role::Initiator
    }

    /// An initiator for one attempt. The vault supplies the secrets of the
    /// exchange; `signing_key` is the current secret key of `identity`.
    pub fn new(
        vault: V,
        identity: Identity,
        signing_key: &[u8],
        credentials: Vec<Credential>,
        trust_policy: P,
        trust_context: Option<TrustContext>,
    ) -> (machine: Self)
        ensures
            machine.vault() == vault,
            machine.trust_policy() == trust_policy,
            machine.in_role(),
            machine@ == spec_new(
                Role::Initiator,
                machine@.keys.s,
                machine@.keys.e,
                identity@,
                vault.spec_sign(signing_key@, vault.spec_public_key(machine@.keys.s)),
                views(credentials@),
                context_view(trust_context),
            ),
    {
        InitiatorStateMachine {
            handshake: Handshake::new(
                Role::Initiator,
                vault,
                identity,
                signing_key,
                credentials,
                trust_policy,
                trust_context,
            ),
        }
    }

    /// An initiator for one attempt with given secrets and a given proof
    /// that the static secret belongs to `identity`.
    pub fn with_keys(
        vault: V,
        static_secret: Vec<u8>,
        ephemeral_secret: Vec<u8>,
        identity: Identity,
        proof: Vec<u8>,
        credentials: Vec<Credential>,
        trust_policy: P,
        trust_context: Option<TrustContext>,
    ) -> (machine: Self)
        ensures
            machine.vault() == vault,
            machine.trust_policy() == trust_policy,
            machine.in_role(),
            machine@ == spec_new(
                Role::Initiator,
                static_secret@,
                ephemeral_secret@,
                identity@,
                proof@,
                views(credentials@),
                context_view(trust_context),
            ),
    {
        InitiatorStateMachine {
            handshake: Handshake::with_keys(
                Role::Initiator,
                vault,
                static_secret,
                ephemeral_secret,
                identity,
                proof,
                credentials,
                trust_policy,
                trust_context,
            ),
        }
    }

    pub fn status(&self) -> (status: Status)
        ensures
            status == self@.status,
    {
        self.handshake.status()
    }

    fn on_initialize(&mut self) -> (r: Result<Action, HandshakeError>)
        ensures
            final(self).continues(*old(self)),
            (final(self)@, action_result(r)) == spec_initiator_on_initialize(
                &old(self).vault(),
                old(self)@,
            ),
    {
        match self.handshake.initialize() {
            Err(error) => Err(error),
            Ok(_) => match self.handshake.encode_message1() {
                Err(error) => {
                    self.handshake.abort();
                    Err(error)
                },
                Ok(message) => Ok(Action::SendMessage(message)),
            },
        }
    }

    fn on_message2(&mut self, message: Vec<u8>, now: u64) -> (r: Result<Action, HandshakeError>)
        ensures
            final(self).continues(*old(self)),
            (final(self)@, action_result(r)) == spec_initiator_on_message2(
                &old(self).vault(),
                &old(self).trust_policy(),
                old(self)@,
                message@,
                now,
            ),
    {
        let payload = match self.handshake.decode_message2(message) {
            Err(error) => {
                return Err(error);
            },
            Ok(payload) => payload,
        };
        let their_identity = match self.handshake.verify_identity(payload, now) {
            Err(error) => {
                self.handshake.abort();
                return Err(error);
            },
            Ok(identity) => identity,
        };
        let answer = match self.handshake.encode_message3() {
            Err(error) => {
                self.handshake.abort();
                return Err(error);
            },
            Ok(answer) => answer,
        };
        match self.handshake.set_final_state(their_identity, Role::Initiator) {
            Err(error) => {
                self.handshake.abort();
                Err(error)
            },
            Ok(_) => Ok(Action::SendMessage(answer)),
        }
    }
}

impl<V: XXVault, P: TrustPolicy> StateMachine for InitiatorStateMachine<V, P> {
    /// Handles an event according to the initiator's table:
    ///
    /// | state | event | action | next state |
    /// |---|---|---|---|
    /// | `Initial` | `Initialize` | `SendMessage` | `WaitingForMessage2` |
    /// | `WaitingForMessage2` | `ReceivedMessage` | `SendMessage` | `Done` |
    ///
    /// Any other pair is refused with `Invalid` and changes nothing. A
    /// message that fails to decode, to authenticate or to be authorized
    /// aborts the attempt.
    fn on_event(&mut self, event: Event, now: u64) -> (r: Result<Action, HandshakeError>)
        ensures
            final(self).continues(*old(self)),
            old(self).in_role() ==> final(self).in_role(),
            (final(self)@, action_result(r)) == spec_initiator_step(
                &old(self).vault(),
                &old(self).trust_policy(),
                old(self)@,
                event@,
                now,
            ),
    {
        match event {
            Event::Initialize => self.on_initialize(),
            Event::ReceivedMessage(message) => {
                if self.handshake.status() == Status::WaitingForMessage2 {
                    self.on_message2(message, now)
                } else {
                    Err(HandshakeError::Invalid)
                }
            },
        }
    }

    /// The final state, once the machine is `Done`; `None` in every other
    /// status, that of an aborted attempt among them.
    fn get_final_state(&self) -> (state: Option<FinalHandshakeState>)
        ensures
            final_view(state) == self@.final_state,
            state is Some <==> self@.status == Status::Done,
    {
        self.handshake.get_final_state()
    }
}

} // verus!
