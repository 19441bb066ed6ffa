//! What holds of every handshake, proved from the transition functions of
//! the two state machines.

use vstd::prelude::*;
use crate::credential::{
    lemma_expired_credential_fails_all, lemma_foreign_credential_decides,
    spec_credentials_verdict, spec_first_credential_error, CredentialView,
};
use crate::error::{ErrorKind, HandshakeError};
use crate::handshake::{
    spec_decode_message1, spec_decode_message2, spec_decode_message3, spec_encode_message1,
    spec_encode_message2, spec_encode_message3, spec_failed, spec_initialize,
    spec_new, spec_own_payload, spec_read_static_and_payload, spec_set_final_state,
    spec_verify_identity, spec_write_static_and_payload, HandshakeView,
    Role, Status, SEALED_KEY_SIZE,
};
use crate::handshake_state_machine::{ActionView, EventView};
use crate::identity::{
    spec_current_key, spec_first_change_error, spec_verify_change_history, ChangeView,
    IdentityView,
};
use crate::initiator_state_machine::{
    spec_initiator_on_initialize, spec_initiator_on_message2, spec_initiator_step,
};
use crate::key_schedule::{
    spec_mix_hash, spec_mix_key, spec_open, spec_seal, KeyScheduleView,
};
use crate::payload::{
    lemma_payload_roundtrip, payload_fits, spec_encode_payload,
    IdentityAndCredentialsView,
};
use crate::responder_state_machine::{
    spec_responder_on_message1, spec_responder_on_message3, spec_responder_step,
};
use crate::trust_policy::TrustPolicy;
use crate::vault::{
    differs_in_one_place, vault_derives_distinct_keys, vault_detects_tampering, vault_is_sound,
    XXVault, PUBLIC_KEY_SIZE, TAG_SIZE,
};

verus! {

/// Whether two ends hold the same symmetric state.
pub open spec fn in_step(a: KeyScheduleView, b: KeyScheduleView) -> bool {
    a.h == b.h && a.ck == b.ck && a.k == b.k
}

/// With a sound vault, the end that reads in step with the end that writes
/// reads the payload that was written, learns the writer's static key and
/// stays in step.
pub proof fn lemma_read_what_was_written<V: XXVault>(
    vault: &V,
    writer: KeyScheduleView,
    reader: KeyScheduleView,
    payload: IdentityAndCredentialsView,
)
    requires
        vault_is_sound(vault),
        in_step(writer, reader),
        writer.re == vault.spec_public_key(reader.e),
        payload_fits(payload),
    ensures
        ({
            let written = spec_write_static_and_payload(
                vault,
                writer,
                spec_encode_payload(payload),
            );
            &&& written.1.len() >= SEALED_KEY_SIZE + TAG_SIZE
            &&& written.0.s == writer.s && written.0.e == writer.e && written.0.re == writer.re
                && written.0.rs == writer.rs
            &&& match spec_read_static_and_payload(
                vault,
                reader,
                written.1.subrange(0, SEALED_KEY_SIZE as int),
                written.1.subrange(SEALED_KEY_SIZE as int, written.1.len() as int),
            ) {
                Ok((keys, read)) => {
                    &&& read == payload
                    &&& in_step(written.0, keys)
                    &&& keys.rs == vault.spec_public_key(writer.s)
                    &&& keys.e == reader.e
                    &&& keys.s == reader.s
                    &&& keys.re == reader.re
                },
                Err(_) => false,
            }
        }),
{
    let bytes = spec_encode_payload(payload);
    let public = vault.spec_public_key(writer.s);
    let sealed_key = spec_seal(vault, writer, public);
    let w1 = spec_mix_hash(vault, writer, sealed_key);
    let w2 = spec_mix_key(vault, w1, vault.spec_dh(writer.s, writer.re));
    let sealed_payload = spec_seal(vault, w2, bytes);
    let written = spec_write_static_and_payload(vault, writer, bytes);
    assert(written.1 == sealed_key + sealed_payload);
    assert(public.len() == PUBLIC_KEY_SIZE);
    assert(sealed_key.len() == SEALED_KEY_SIZE);
    assert(sealed_payload.len() == bytes.len() + TAG_SIZE);
    assert(written.1.subrange(0, SEALED_KEY_SIZE as int) =~= sealed_key);
    assert(written.1.subrange(SEALED_KEY_SIZE as int, written.1.len() as int) =~= sealed_payload);
    assert(spec_open(vault, reader, sealed_key) == Some(public));
    let r1 = KeyScheduleView { rs: public, ..spec_mix_hash(vault, reader, sealed_key) };
    assert(vault.spec_dh(reader.e, vault.spec_public_key(writer.s)) == vault.spec_dh(
        writer.s,
        vault.spec_public_key(reader.e),
    ));
    let r2 = spec_mix_key(vault, r1, vault.spec_dh(reader.e, public));
    assert(in_step(w2, r2));
    assert(spec_open(vault, r2, sealed_payload) == Some(bytes));
    lemma_payload_roundtrip(payload);
}

/// What the two ends need of each other for a handshake between them to
/// succeed: a sound vault in common, and on each side an identity with a
/// proof and credentials that pass the other side's verification at the
/// time the other side receives them.
pub open spec fn compatible<V: XXVault, PI: TrustPolicy, PR: TrustPolicy>(
    vault: &V,
    initiator_policy: &PI,
    responder_policy: &PR,
    initiator: HandshakeView,
    responder: HandshakeView,
    time_of_message2: u64,
    time_of_message3: u64,
) -> bool {
    &&& vault_is_sound(vault)
    &&& initiator == spec_new(
        Role::Initiator,
        initiator.keys.s,
        initiator.keys.e,
        initiator.identity,
        initiator.proof,
        initiator.credentials,
        initiator.trust_context,
    )
    &&& responder == spec_new(
        Role::Responder,
        responder.keys.s,
        responder.keys.e,
        responder.identity,
        responder.proof,
        responder.credentials,
        responder.trust_context,
    )
    &&& payload_fits(spec_own_payload(initiator))
    &&& payload_fits(spec_own_payload(responder))
    &&& spec_verify_change_history(vault, initiator.identity.history) == Ok::<
        IdentityView,
        HandshakeError,
    >(initiator.identity)
    &&& spec_verify_change_history(vault, responder.identity.history) == Ok::<
        IdentityView,
        HandshakeError,
    >(responder.identity)
    &&& spec_verify_identity(
        vault,
        initiator_policy,
        initiator.trust_context,
        vault.spec_public_key(responder.keys.s),
        spec_own_payload(responder),
        time_of_message2,
    ) is Ok
    &&& spec_verify_identity(
        vault,
        responder_policy,
        responder.trust_context,
        vault.spec_public_key(initiator.keys.s),
        spec_own_payload(initiator),
        time_of_message3,
    ) is Ok
}

/// The course of a handshake in which each side receives what the other
/// sent: the final states of the initiator and of the responder, or `None`
/// where an event was refused or answered with the wrong action.
pub open spec fn spec_exchange<V: XXVault, PI: TrustPolicy, PR: TrustPolicy>(
    vault: &V,
    initiator_policy: &PI,
    responder_policy: &PR,
    initiator: HandshakeView,
    responder: HandshakeView,
    time_of_message2: u64,
    time_of_message3: u64,
) -> Option<(HandshakeView, HandshakeView)> {
    let i1 = spec_initiator_step(vault, initiator_policy, initiator, EventView::Initialize, 0);
    let r1 = spec_responder_step(vault, responder_policy, responder, EventView::Initialize, 0);
    match (i1.1, r1.1) {
        (Ok(ActionView::SendMessage(message1)), Ok(ActionView::NoAction)) => {
            let r2 = spec_responder_step(
                vault,
                responder_policy,
                r1.0,
                EventView::ReceivedMessage(message1),
                0,
            );
            match r2.1 {
                Ok(ActionView::SendMessage(message2)) => {
                    let i2 = spec_initiator_step(
                        vault,
                        initiator_policy,
                        i1.0,
                        EventView::ReceivedMessage(message2),
                        time_of_message2,
                    );
                    match i2.1 {
                        Ok(ActionView::SendMessage(message3)) => {
                            let r3 = spec_responder_step(
                                vault,
                                responder_policy,
                                r2.0,
                                EventView::ReceivedMessage(message3),
                                time_of_message3,
                            );
                            match r3.1 {
                                Ok(ActionView::NoAction) => Some((i2.0, r3.0)),
                                _ => None,
                            }
                        },
                        _ => None,
                    }
                },
                _ => None,
            }
        },
        _ => None,
    }
}

/// A handshake between compatible ends completes. Both machines reach
/// `Done`; what the initiator encrypts with the responder decrypts with and
/// the other way round; and each side's final state holds the other's
/// identity.
pub proof fn law_compatible_ends_complete<V: XXVault, PI: TrustPolicy, PR: TrustPolicy>(
    vault: &V,
    initiator_policy: &PI,
    responder_policy: &PR,
    initiator: HandshakeView,
    responder: HandshakeView,
    time_of_message2: u64,
    time_of_message3: u64,
)
    requires
        compatible(
            vault,
            initiator_policy,
            responder_policy,
            initiator,
            responder,
            time_of_message2,
            time_of_message3,
        ),
    ensures
        match spec_exchange(
            vault,
            initiator_policy,
            responder_policy,
            initiator,
            responder,
            time_of_message2,
            time_of_message3,
        ) {
            Some((i, r)) => {
                &&& i.status == Status::Done
                &&& r.status == Status::Done
                &&& match (i.final_state, r.final_state) {
                    (Some(ours), Some(theirs)) => {
                        &&& ours.role == Role::Initiator
                        &&& theirs.role == Role::Responder
                        &&& ours.encryption_key == theirs.decryption_key
                        &&& ours.decryption_key == theirs.encryption_key
                        &&& ours.their_identity == responder.identity
                        &&& theirs.their_identity == initiator.identity
                    },
                    _ => false,
                }
            },
            None => false,
        },
{
    let nothing = Seq::<u8>::empty();
    // The first message.
    let i0 = spec_initialize(vault, initiator);
    let i1 = spec_encode_message1(vault, i0.0);
    let message1 = vault.spec_public_key(initiator.keys.e);
    assert(i1.1 == Ok::<Seq<u8>, HandshakeError>(message1));
    assert(message1.len() == PUBLIC_KEY_SIZE);
    let r0 = spec_initialize(vault, responder);
    let r1 = spec_decode_message1(vault, r0.0, message1);
    assert(message1.subrange(0, PUBLIC_KEY_SIZE as int) =~= message1);
    assert(message1.subrange(PUBLIC_KEY_SIZE as int, message1.len() as int) =~= nothing);
    assert(r1.1 is Ok);
    assert(in_step(i1.0.keys, r1.0.keys));
    assert(r1.0.keys.re == message1);
    // The second message.
    let public_r = vault.spec_public_key(responder.keys.e);
    let rk1 = spec_mix_hash(vault, r1.0.keys, public_r);
    let rk2 = spec_mix_key(vault, rk1, vault.spec_dh(responder.keys.e, message1));
    let payload_r = spec_own_payload(responder);
    assert(spec_own_payload(r1.0) == payload_r);
    let written2 = spec_write_static_and_payload(vault, rk2, spec_encode_payload(payload_r));
    let r2 = spec_encode_message2(vault, r1.0);
    let message2 = public_r + written2.1;
    assert(r2.1 == Ok::<Seq<u8>, HandshakeError>(message2));
    assert(public_r.len() == PUBLIC_KEY_SIZE);
    assert(message2.subrange(0, PUBLIC_KEY_SIZE as int) =~= public_r);
    let ik1 = spec_mix_hash(
        vault,
        KeyScheduleView { re: public_r, ..i1.0.keys },
        public_r,
    );
    assert(vault.spec_dh(initiator.keys.e, vault.spec_public_key(responder.keys.e))
        == vault.spec_dh(responder.keys.e, vault.spec_public_key(initiator.keys.e)));
    let ik2 = spec_mix_key(vault, ik1, vault.spec_dh(initiator.keys.e, public_r));
    assert(in_step(rk2, ik2));
    lemma_read_what_was_written(vault, rk2, ik2, payload_r);
    assert(message2.subrange(PUBLIC_KEY_SIZE as int, PUBLIC_KEY_SIZE + SEALED_KEY_SIZE)
        =~= written2.1.subrange(0, SEALED_KEY_SIZE as int));
    assert(message2.subrange(PUBLIC_KEY_SIZE + SEALED_KEY_SIZE, message2.len() as int)
        =~= written2.1.subrange(SEALED_KEY_SIZE as int, written2.1.len() as int));
    let i2 = spec_decode_message2(vault, i1.0, message2);
    assert(i2.1 == Ok::<IdentityAndCredentialsView, HandshakeError>(payload_r));
    assert(i2.0.keys.rs == vault.spec_public_key(responder.keys.s));
    assert(in_step(r2.0.keys, i2.0.keys));
    // The third message.
    let payload_i = spec_own_payload(initiator);
    assert(spec_own_payload(i2.0) == payload_i);
    let written3 = spec_write_static_and_payload(
        vault,
        i2.0.keys,
        spec_encode_payload(payload_i),
    );
    let i3 = spec_encode_message3(vault, i2.0);
    let message3 = written3.1;
    assert(i3.1 == Ok::<Seq<u8>, HandshakeError>(message3));
    lemma_read_what_was_written(vault, i2.0.keys, r2.0.keys, payload_i);
    assert(message3.len() != message1.len());
    assert(r2.0.last_received == Some(message1));
    let r3 = spec_decode_message3(vault, r2.0, message3);
    assert(r3.1 == Ok::<IdentityAndCredentialsView, HandshakeError>(payload_i));
    assert(r3.0.keys.rs == vault.spec_public_key(initiator.keys.s));
    assert(in_step(i3.0.keys, r3.0.keys));
    // Each side accepts the other and derives the same two keys.
    let i4 = spec_set_final_state(vault, i3.0, responder.identity, Role::Initiator);
    let r4 = spec_set_final_state(vault, r3.0, initiator.identity, Role::Responder);
    assert(i4.1 is Ok);
    assert(r4.1 is Ok);
    assert(spec_initiator_on_initialize(vault, initiator) == (
        i1.0,
        Ok::<ActionView, HandshakeError>(ActionView::SendMessage(message1)),
    ));
    assert(spec_responder_on_message1(vault, r0.0, message1) == (
        r2.0,
        Ok::<ActionView, HandshakeError>(ActionView::SendMessage(message2)),
    ));
    assert(spec_initiator_on_message2(vault, initiator_policy, i1.0, message2, time_of_message2)
        == (i4.0, Ok::<ActionView, HandshakeError>(ActionView::SendMessage(message3))));
    assert(spec_responder_on_message3(vault, responder_policy, r2.0, message3, time_of_message3)
        == (r4.0, Ok::<ActionView, HandshakeError>(ActionView::NoAction)));
}

/// Whether a view is one that `get_final_state` answers truthfully by the
/// status alone: there is a final state exactly when the attempt is done.
pub open spec fn consistent(state: HandshakeView) -> bool {
    state.final_state is Some <==> state.status == Status::Done
}

/// The state of a responder after a sequence of events, each with its time.
pub open spec fn spec_responder_run<V: XXVault, P: TrustPolicy>(
    vault: &V,
    policy: &P,
    state: HandshakeView,
    events: Seq<(EventView, u64)>,
) -> HandshakeView
    decreases events.len(),
{
    if events.len() == 0 {
        state
    } else {
        spec_responder_run(
            vault,
            policy,
            spec_responder_step(vault, policy, state, events[0].0, events[0].1).0,
            events.drop_first(),
        )
    }
}

/// The state of an initiator after a sequence of events, each with its time.
pub open spec fn spec_initiator_run<V: XXVault, P: TrustPolicy>(
    vault: &V,
    policy: &P,
    state: HandshakeView,
    events: Seq<(EventView, u64)>,
) -> HandshakeView
    decreases events.len(),
{
    if events.len() == 0 {
        state
    } else {
        spec_initiator_run(
            vault,
            policy,
            spec_initiator_step(vault, policy, state, events[0].0, events[0].1).0,
            events.drop_first(),
        )
    }
}

/// A responder has a final state exactly when it is done, after every event.
pub proof fn law_responder_final_state_exactly_when_done<V: XXVault, P: TrustPolicy>(
    vault: &V,
    policy: &P,
    state: HandshakeView,
    event: EventView,
    now: u64,
)
    requires
        consistent(state),
    ensures
        consistent(spec_responder_step(vault, policy, state, event, now).0),
{
}

/// An initiator has a final state exactly when it is done, after every
/// event.
pub proof fn law_initiator_final_state_exactly_when_done<V: XXVault, P: TrustPolicy>(
    vault: &V,
    policy: &P,
    state: HandshakeView,
    event: EventView,
    now: u64,
)
    requires
        consistent(state),
    ensures
        consistent(spec_initiator_step(vault, policy, state, event, now).0),
{
}

/// An aborted responder refuses every event and never changes again.
pub proof fn law_aborted_responder_stays_aborted<V: XXVault, P: TrustPolicy>(
    vault: &V,
    policy: &P,
    state: HandshakeView,
    events: Seq<(EventView, u64)>,
)
    requires
        state.status == Status::Failed,
    ensures
        spec_responder_run(vault, policy, state, events) == state,
        forall|event: EventView, now: u64|
            spec_responder_step(vault, policy, state, event, now) == (
                state,
                Err::<ActionView, HandshakeError>(HandshakeError::Invalid),
            ),
    decreases events.len(),
{
    if events.len() > 0 {
        law_aborted_responder_stays_aborted(vault, policy, state, events.drop_first());
    }
}

/// An aborted initiator refuses every event and never changes again.
pub proof fn law_aborted_initiator_stays_aborted<V: XXVault, P: TrustPolicy>(
    vault: &V,
    policy: &P,
    state: HandshakeView,
    events: Seq<(EventView, u64)>,
)
    requires
        state.status == Status::Failed,
    ensures
        spec_initiator_run(vault, policy, state, events) == state,
        forall|event: EventView, now: u64|
            spec_initiator_step(vault, policy, state, event, now) == (
                state,
                Err::<ActionView, HandshakeError>(HandshakeError::Invalid),
            ),
    decreases events.len(),
{
    if events.len() > 0 {
        law_aborted_initiator_stays_aborted(vault, policy, state, events.drop_first());
    }
}

/// A responder that refuses a message while it waits for one is aborted, and
/// has no final state then or after any further events.
pub proof fn law_responder_refusal_is_final<V: XXVault, P: TrustPolicy>(
    vault: &V,
    policy: &P,
    state: HandshakeView,
    message: Seq<u8>,
    now: u64,
    later: Seq<(EventView, u64)>,
)
    requires
        state.status == Status::WaitingForMessage1 || state.status == Status::WaitingForMessage3,
        spec_responder_step(vault, policy, state, EventView::ReceivedMessage(message), now).1
            is Err,
    ensures
        ({
            let refused = spec_responder_step(
                vault,
                policy,
                state,
                EventView::ReceivedMessage(message),
                now,
            ).0;
            &&& refused.status == Status::Failed
            &&& refused.final_state is None
            &&& spec_responder_run(vault, policy, refused, later).final_state is None
        }),
{
    let refused = spec_responder_step(
        vault,
        policy,
        state,
        EventView::ReceivedMessage(message),
        now,
    ).0;
    law_aborted_responder_stays_aborted(vault, policy, refused, later);
}

/// An initiator that refuses a message while it waits for one is aborted,
/// and has no final state then or after any further events.
pub proof fn law_initiator_refusal_is_final<V: XXVault, P: TrustPolicy>(
    vault: &V,
    policy: &P,
    state: HandshakeView,
    message: Seq<u8>,
    now: u64,
    later: Seq<(EventView, u64)>,
)
    requires
        state.status == Status::WaitingForMessage2,
        spec_initiator_step(vault, policy, state, EventView::ReceivedMessage(message), now).1
            is Err,
    ensures
        ({
            let refused = spec_initiator_step(
                vault,
                policy,
                state,
                EventView::ReceivedMessage(message),
                now,
            ).0;
            &&& refused.status == Status::Failed
            &&& refused.final_state is None
            &&& spec_initiator_run(vault, policy, refused, later).final_state is None
        }),
{
    let refused = spec_initiator_step(
        vault,
        policy,
        state,
        EventView::ReceivedMessage(message),
        now,
    ).0;
    law_aborted_initiator_stays_aborted(vault, policy, refused, later);
}

/// The least length of a message that the side in `status` can accept.
pub open spec fn spec_least_length(status: Status) -> nat {
    match status {
        Status::WaitingForMessage1 => PUBLIC_KEY_SIZE as nat,
        Status::WaitingForMessage2 => (PUBLIC_KEY_SIZE + SEALED_KEY_SIZE) as nat,
        Status::WaitingForMessage3 => SEALED_KEY_SIZE as nat,
        _ => 0,
    }
}

/// A message that is too short to hold what it must is a protocol error to
/// either machine, and aborts the attempt.
pub proof fn law_truncated_message_is_refused<V: XXVault, P: TrustPolicy>(
    vault: &V,
    policy: &P,
    state: HandshakeView,
    message: Seq<u8>,
    now: u64,
)
    requires
        message.len() < spec_least_length(state.status),
    ensures
        state.status != Status::WaitingForMessage2 ==> spec_responder_step(
            vault,
            policy,
            state,
            EventView::ReceivedMessage(message),
            now,
        ) == (spec_failed(state), Err::<ActionView, HandshakeError>(HandshakeError::Invalid)),
        state.status == Status::WaitingForMessage2 ==> spec_initiator_step(
            vault,
            policy,
            state,
            EventView::ReceivedMessage(message),
            now,
        ) == (spec_failed(state), Err::<ActionView, HandshakeError>(HandshakeError::Invalid)),
{
}

/// A responder accepts a first message exactly when the message is long
/// enough to hold a public key: nothing in it can be authenticated yet.
pub proof fn law_message1_is_accepted_when_it_holds_a_key<V: XXVault, P: TrustPolicy>(
    vault: &V,
    policy: &P,
    state: HandshakeView,
    message: Seq<u8>,
    now: u64,
)
    requires
        state.status == Status::WaitingForMessage1,
    ensures
        spec_responder_step(vault, policy, state, EventView::ReceivedMessage(message), now).1
            is Ok <==> message.len() >= PUBLIC_KEY_SIZE,
        message.len() >= PUBLIC_KEY_SIZE ==> spec_responder_step(
            vault,
            policy,
            state,
            EventView::ReceivedMessage(message),
            now,
        ).0.status == Status::WaitingForMessage3,
{
}

/// The schedule with which an initiator opens the second message: it has
/// mixed in the responder's ephemeral key and what it shares with it.
pub open spec fn spec_keys_for_message2<V: XXVault>(
    vault: &V,
    keys: KeyScheduleView,
    message: Seq<u8>,
) -> KeyScheduleView {
    let re = message.subrange(0, PUBLIC_KEY_SIZE as int);
    spec_mix_key(
        vault,
        spec_mix_hash(vault, KeyScheduleView { re, ..keys }, re),
        vault.spec_dh(keys.e, re),
    )
}

/// A second message of which an encrypted part does not authenticate is
/// refused by the initiator as a failed decryption, an authentication
/// error, and aborts the attempt.
pub proof fn law_unauthentic_message2_is_an_authentication_error<V: XXVault, P: TrustPolicy>(
    vault: &V,
    policy: &P,
    state: HandshakeView,
    message: Seq<u8>,
    now: u64,
)
    requires
        state.status == Status::WaitingForMessage2,
        state.last_received != Some(message),
        message.len() >= PUBLIC_KEY_SIZE + SEALED_KEY_SIZE,
        spec_read_static_and_payload(
            vault,
            spec_keys_for_message2(vault, state.keys, message),
            message.subrange(PUBLIC_KEY_SIZE as int, PUBLIC_KEY_SIZE + SEALED_KEY_SIZE),
            message.subrange(PUBLIC_KEY_SIZE + SEALED_KEY_SIZE, message.len() as int),
        ) == Err::<(KeyScheduleView, IdentityAndCredentialsView), HandshakeError>(
            HandshakeError::DecryptionFailed,
        ),
    ensures
        spec_initiator_step(vault, policy, state, EventView::ReceivedMessage(message), now) == (
            spec_failed(state),
            Err::<ActionView, HandshakeError>(HandshakeError::DecryptionFailed),
        ),
        HandshakeError::DecryptionFailed.spec_kind() == ErrorKind::Authentication,
{
}

/// A third message whose encrypted static key does not authenticate is
/// refused by the responder as a failed decryption, an authentication
/// error, and aborts the attempt.
pub proof fn law_unauthentic_message3_is_an_authentication_error<V: XXVault, P: TrustPolicy>(
    vault: &V,
    policy: &P,
    state: HandshakeView,
    message: Seq<u8>,
    now: u64,
)
    requires
        state.status == Status::WaitingForMessage3,
        state.last_received != Some(message),
        message.len() >= SEALED_KEY_SIZE,
        spec_open(vault, state.keys, message.subrange(0, SEALED_KEY_SIZE as int)) is None,
    ensures
        spec_responder_step(vault, policy, state, EventView::ReceivedMessage(message), now) == (
            spec_failed(state),
            Err::<ActionView, HandshakeError>(HandshakeError::DecryptionFailed),
        ),
        HandshakeError::DecryptionFailed.spec_kind() == ErrorKind::Authentication,
{
}

/// Every error falls in one class. Only `Invalid` is a protocol error, only
/// a rejection by the trust policy an authorization error; a failed
/// decryption, a bad signature or chain, and every failure of a credential,
/// expiry among them, are authentication errors.
pub proof fn law_errors_are_classified(error: HandshakeError)
    ensures
        error.spec_kind() == ErrorKind::Protocol <==> error == HandshakeError::Invalid,
        error.spec_kind() == ErrorKind::Authorization <==> error
            == HandshakeError::PolicyRejected,
        error == HandshakeError::DecryptionFailed || error == HandshakeError::InvalidSignature
            || error == HandshakeError::BrokenChain || error == HandshakeError::EmptyHistory
            || error == HandshakeError::Expired || error == HandshakeError::UnknownIssuer
            || error == HandshakeError::SubjectMismatch ==> error.spec_kind()
            == ErrorKind::Authentication,
{
}

/// A message delivered to a responder a second time is a protocol error,
/// whatever became of it the first time.
pub proof fn law_responder_refuses_repeated_message<V: XXVault, P: TrustPolicy>(
    vault: &V,
    policy: &P,
    state: HandshakeView,
    message: Seq<u8>,
    first_time: u64,
    second_time: u64,
)
    ensures
        ({
            let once = spec_responder_step(
                vault,
                policy,
                state,
                EventView::ReceivedMessage(message),
                first_time,
            );
            spec_responder_step(
                vault,
                policy,
                once.0,
                EventView::ReceivedMessage(message),
                second_time,
            ).1 == Err::<ActionView, HandshakeError>(HandshakeError::Invalid)
        }),
{
}

/// A message delivered to an initiator a second time is a protocol error,
/// whatever became of it the first time.
pub proof fn law_initiator_refuses_repeated_message<V: XXVault, P: TrustPolicy>(
    vault: &V,
    policy: &P,
    state: HandshakeView,
    message: Seq<u8>,
    first_time: u64,
    second_time: u64,
)
    ensures
        ({
            let once = spec_initiator_step(
                vault,
                policy,
                state,
                EventView::ReceivedMessage(message),
                first_time,
            );
            spec_initiator_step(
                vault,
                policy,
                once.0,
                EventView::ReceivedMessage(message),
                second_time,
            ).1 == Err::<ActionView, HandshakeError>(HandshakeError::Invalid)
        }),
{
}

/// Whether `payload` authenticates its sender as the holder of
/// `peer_static_key`: the change history verifies and the identity it
/// defines signed the key.
pub open spec fn authenticates<V: XXVault>(
    vault: &V,
    peer_static_key: Seq<u8>,
    payload: IdentityAndCredentialsView,
) -> bool {
    match spec_verify_change_history(vault, payload.history) {
        Err(_) => false,
        Ok(identity) => vault.spec_verify(
            spec_current_key(identity.history),
            peer_static_key,
            payload.proof,
        ),
    }
}

/// A credential whose subject is not the authenticated peer fails the
/// verification of that peer with a subject mismatch, whether or not the
/// credential's signature is valid and whatever the trust policy would say.
pub proof fn law_foreign_credential_is_a_subject_mismatch<V: XXVault, P: TrustPolicy>(
    vault: &V,
    policy: &P,
    trust_context: Option<Seq<IdentityView>>,
    peer_static_key: Seq<u8>,
    payload: IdentityAndCredentialsView,
    index: int,
    now: u64,
)
    requires
        authenticates(vault, peer_static_key, payload),
        0 <= index < payload.credentials.len(),
        payload.credentials[index].subject != spec_verify_change_history(
            vault,
            payload.history,
        )->Ok_0.identifier,
    ensures
        spec_verify_identity(vault, policy, trust_context, peer_static_key, payload, now)
            == Err::<IdentityView, HandshakeError>(HandshakeError::SubjectMismatch),
{
    let identity = spec_verify_change_history(vault, payload.history)->Ok_0;
    lemma_foreign_credential_decides(
        vault,
        payload.credentials,
        index,
        identity.identifier,
        trust_context,
        now,
    );
}

/// A peer that presents an expired credential fails verification, whether
/// or not the credential's signature is valid.
pub proof fn law_expired_credential_fails_verification<V: XXVault, P: TrustPolicy>(
    vault: &V,
    policy: &P,
    trust_context: Option<Seq<IdentityView>>,
    peer_static_key: Seq<u8>,
    payload: IdentityAndCredentialsView,
    index: int,
    now: u64,
)
    requires
        0 <= index < payload.credentials.len(),
        payload.credentials[index].expires_at matches Some(last) && last < now,
    ensures
        spec_verify_identity(vault, policy, trust_context, peer_static_key, payload, now) is Err,
        spec_verify_identity(vault, policy, trust_context, peer_static_key, payload, now)
            != Err::<IdentityView, HandshakeError>(HandshakeError::PolicyRejected),
{
    lemma_history_error_is_never_a_rejection(vault, payload.history);
    match spec_verify_change_history(vault, payload.history) {
        Err(_) => {},
        Ok(identity) => {
            lemma_expired_credential_fails_all(
                vault,
                payload.credentials,
                index,
                identity.identifier,
                trust_context,
                now,
            );
            lemma_verdict_is_never_a_rejection(
                vault,
                payload.credentials,
                identity.identifier,
                trust_context,
                now,
            );
        },
    }
}

/// The trust policy decides last: verification ends in a rejection by the
/// policy exactly when the peer is authenticated, every credential
/// verifies, and the policy does not admit the identity.
pub proof fn law_policy_decides_last<V: XXVault, P: TrustPolicy>(
    vault: &V,
    policy: &P,
    trust_context: Option<Seq<IdentityView>>,
    peer_static_key: Seq<u8>,
    payload: IdentityAndCredentialsView,
    now: u64,
)
    ensures
        spec_verify_identity(vault, policy, trust_context, peer_static_key, payload, now)
            == Err::<IdentityView, HandshakeError>(HandshakeError::PolicyRejected) <==> {
            &&& authenticates(vault, peer_static_key, payload)
            &&& spec_credentials_verdict(
                vault,
                payload.credentials,
                spec_verify_change_history(vault, payload.history)->Ok_0.identifier,
                trust_context,
                now,
            ) is None
            &&& !policy.spec_check(spec_verify_change_history(vault, payload.history)->Ok_0)
        },
{
    lemma_history_error_is_never_a_rejection(vault, payload.history);
    match spec_verify_change_history(vault, payload.history) {
        Err(_) => {},
        Ok(identity) => {
            lemma_verdict_is_never_a_rejection(
                vault,
                payload.credentials,
                identity.identifier,
                trust_context,
                now,
            );
        },
    }
}

/// No change history fails with the error that is the trust policy's.
pub proof fn lemma_history_error_is_never_a_rejection<V: XXVault>(
    vault: &V,
    history: Seq<ChangeView>,
)
    ensures
        spec_verify_change_history(vault, history) != Err::<IdentityView, HandshakeError>(
            HandshakeError::PolicyRejected,
        ),
{
    lemma_change_error_is_never_a_rejection(vault, history, history.len());
}

proof fn lemma_change_error_is_never_a_rejection<V: XXVault>(
    vault: &V,
    history: Seq<ChangeView>,
    count: nat,
)
    ensures
        spec_first_change_error(vault, history, count) != Some(HandshakeError::PolicyRejected),
    decreases count,
{
    if count > 0 {
        lemma_change_error_is_never_a_rejection(vault, history, (count - 1) as nat);
    }
}

/// No verdict on credentials is the error that is the trust policy's.
pub proof fn lemma_verdict_is_never_a_rejection<V: XXVault>(
    vault: &V,
    credentials: Seq<CredentialView>,
    subject: Seq<u8>,
    context: Option<Seq<IdentityView>>,
    now: u64,
)
    ensures
        spec_credentials_verdict(vault, credentials, subject, context, now) != Some(
            HandshakeError::PolicyRejected,
        ),
{
    lemma_credential_error_is_never_a_rejection(
        vault,
        credentials,
        subject,
        context,
        now,
        credentials.len(),
    );
}

proof fn lemma_credential_error_is_never_a_rejection<V: XXVault>(
    vault: &V,
    credentials: Seq<CredentialView>,
    subject: Seq<u8>,
    context: Option<Seq<IdentityView>>,
    now: u64,
    count: nat,
)
    ensures
        spec_first_credential_error(vault, credentials, subject, context, now, count) != Some(
            HandshakeError::PolicyRejected,
        ),
    decreases count,
{
    if count > 0 {
        lemma_credential_error_is_never_a_rejection(
            vault,
            credentials,
            subject,
            context,
            now,
            (count - 1) as nat,
        );
    }
}

/// The initiator after it has sent the first message, and the second
/// message that the responder answers with; `None` where either machine
/// refuses.
pub open spec fn spec_first_two_messages<V: XXVault, PI: TrustPolicy, PR: TrustPolicy>(
    vault: &V,
    initiator_policy: &PI,
    responder_policy: &PR,
    initiator: HandshakeView,
    responder: HandshakeView,
) -> Option<(HandshakeView, Seq<u8>)> {
    let i1 = spec_initiator_step(vault, initiator_policy, initiator, EventView::Initialize, 0);
    let r1 = spec_responder_step(vault, responder_policy, responder, EventView::Initialize, 0);
    match (i1.1, r1.1) {
        (Ok(ActionView::SendMessage(message1)), Ok(ActionView::NoAction)) => {
            match spec_responder_step(
                vault,
                responder_policy,
                r1.0,
                EventView::ReceivedMessage(message1),
                0,
            ).1 {
                Ok(ActionView::SendMessage(message2)) => Some((i1.0, message2)),
                _ => None,
            }
        },
        _ => None,
    }
}

/// Whether `changed` is the second message `message` with exactly one byte
/// changed inside its encrypted identity payload, which follows the
/// responder's ephemeral key and its encrypted static key.
pub open spec fn spec_payload_changed(message: Seq<u8>, changed: Seq<u8>) -> bool {
    &&& message.len() == changed.len()
    &&& exists|place: int|
        PUBLIC_KEY_SIZE + SEALED_KEY_SIZE <= place < message.len() && message[place]
            != changed[place] && forall|other: int|
            0 <= other < message.len() && other != place ==> message[other] == changed[other]
}

/// A second message of which one byte inside the encrypted identity
/// payload was changed on its way is refused by the initiator as a failed
/// decryption, an authentication error. The attempt is aborted: no third
/// message is produced and there is no final state. This holds of a sound
/// vault whose cipher notices a changed byte.
pub proof fn law_tampered_message2_is_an_authentication_error<
    V: XXVault,
    PI: TrustPolicy,
    PR: TrustPolicy,
>(
    vault: &V,
    initiator_policy: &PI,
    responder_policy: &PR,
    initiator: HandshakeView,
    responder: HandshakeView,
    changed: Seq<u8>,
    now: u64,
)
    requires
        vault_is_sound(vault),
        vault_detects_tampering(vault),
        initiator == spec_new(
            Role::Initiator,
            initiator.keys.s,
            initiator.keys.e,
            initiator.identity,
            initiator.proof,
            initiator.credentials,
            initiator.trust_context,
        ),
        responder == spec_new(
            Role::Responder,
            responder.keys.s,
            responder.keys.e,
            responder.identity,
            responder.proof,
            responder.credentials,
            responder.trust_context,
        ),
        spec_first_two_messages(
            vault,
            initiator_policy,
            responder_policy,
            initiator,
            responder,
        ) matches Some((_, message2)) && spec_payload_changed(message2, changed),
    ensures
        ({
            let waiting = spec_first_two_messages(
                vault,
                initiator_policy,
                responder_policy,
                initiator,
                responder,
            )->Some_0.0;
            let refused = spec_initiator_step(
                vault,
                initiator_policy,
                waiting,
                EventView::ReceivedMessage(changed),
                now,
            );
            &&& refused.1 == Err::<ActionView, HandshakeError>(HandshakeError::DecryptionFailed)
            &&& HandshakeError::DecryptionFailed.spec_kind() == ErrorKind::Authentication
            &&& refused.0 == spec_failed(waiting)
            &&& refused.0.status == Status::Failed
            &&& refused.0.final_state is None
        }),
{
    let nothing = Seq::<u8>::empty();
    let i0 = spec_initialize(vault, initiator);
    let i1 = spec_encode_message1(vault, i0.0);
    let message1 = vault.spec_public_key(initiator.keys.e);
    assert(i1.1 == Ok::<Seq<u8>, HandshakeError>(message1));
    assert(message1.len() == PUBLIC_KEY_SIZE);
    let r0 = spec_initialize(vault, responder);
    let r1 = spec_decode_message1(vault, r0.0, message1);
    assert(message1.subrange(0, PUBLIC_KEY_SIZE as int) =~= message1);
    assert(message1.subrange(PUBLIC_KEY_SIZE as int, message1.len() as int) =~= nothing);
    assert(r1.1 is Ok);
    assert(in_step(i1.0.keys, r1.0.keys));
    let public_r = vault.spec_public_key(responder.keys.e);
    let rk1 = spec_mix_hash(vault, r1.0.keys, public_r);
    let rk2 = spec_mix_key(vault, rk1, vault.spec_dh(responder.keys.e, message1));
    let bytes = spec_encode_payload(spec_own_payload(r1.0));
    let static_key = vault.spec_public_key(rk2.s);
    let sealed_key = spec_seal(vault, rk2, static_key);
    let w1 = spec_mix_hash(vault, rk2, sealed_key);
    let w2 = spec_mix_key(vault, w1, vault.spec_dh(rk2.s, rk2.re));
    let sealed_payload = spec_seal(vault, w2, bytes);
    let r2 = spec_encode_message2(vault, r1.0);
    let message2 = public_r + (sealed_key + sealed_payload);
    assert(r2.1 == Ok::<Seq<u8>, HandshakeError>(message2));
    assert(spec_initiator_on_initialize(vault, initiator) == (
        i1.0,
        Ok::<ActionView, HandshakeError>(ActionView::SendMessage(message1)),
    ));
    assert(spec_responder_on_message1(vault, r0.0, message1).1 == Ok::<
        ActionView,
        HandshakeError,
    >(ActionView::SendMessage(message2)));
    assert(public_r.len() == PUBLIC_KEY_SIZE);
    assert(static_key.len() == PUBLIC_KEY_SIZE);
    assert(sealed_key.len() == SEALED_KEY_SIZE);
    // What the initiator reads of the changed message.
    let place = choose|place: int|
        PUBLIC_KEY_SIZE + SEALED_KEY_SIZE <= place < message2.len() && message2[place]
            != changed[place] && forall|other: int|
            0 <= other < message2.len() && other != place ==> message2[other] == changed[other];
    let start = (PUBLIC_KEY_SIZE + SEALED_KEY_SIZE) as int;
    let changed_payload = changed.subrange(start, changed.len() as int);
    assert(changed.subrange(0, PUBLIC_KEY_SIZE as int) =~= public_r);
    assert(changed.subrange(PUBLIC_KEY_SIZE as int, start) =~= sealed_key);
    assert(message2.subrange(start, message2.len() as int) =~= sealed_payload);
    assert(differs_in_one_place(sealed_payload, changed_payload)) by {
        assert(sealed_payload[place - start] != changed_payload[place - start]);
        assert forall|other: int|
            0 <= other < sealed_payload.len() && other != place - start implies
            sealed_payload[other] == changed_payload[other] by {
            assert(sealed_payload[other] == message2[other + start]);
        }
    }
    let ik1 = spec_mix_hash(vault, KeyScheduleView { re: public_r, ..i1.0.keys }, public_r);
    assert(vault.spec_dh(initiator.keys.e, vault.spec_public_key(responder.keys.e))
        == vault.spec_dh(responder.keys.e, vault.spec_public_key(initiator.keys.e)));
    let ik2 = spec_mix_key(vault, ik1, vault.spec_dh(initiator.keys.e, public_r));
    assert(in_step(rk2, ik2));
    assert(spec_open(vault, ik2, sealed_key) == Some(static_key));
    let r1k = KeyScheduleView { rs: static_key, ..spec_mix_hash(vault, ik2, sealed_key) };
    assert(vault.spec_dh(initiator.keys.e, vault.spec_public_key(responder.keys.s))
        == vault.spec_dh(responder.keys.s, vault.spec_public_key(initiator.keys.e)));
    let r2k = spec_mix_key(vault, r1k, vault.spec_dh(ik2.e, static_key));
    assert(in_step(w2, r2k));
    assert(vault.spec_decrypt(r2k.k, r2k.h, sealed_payload) == Some(bytes));
    assert(spec_open(vault, r2k, changed_payload) is None);
    assert(spec_read_static_and_payload(vault, ik2, sealed_key, changed_payload) == Err::<
        (KeyScheduleView, IdentityAndCredentialsView),
        HandshakeError,
    >(HandshakeError::DecryptionFailed));
    assert(spec_decode_message2(vault, i1.0, changed) == (
        spec_failed(i1.0),
        Err::<IdentityAndCredentialsView, HandshakeError>(HandshakeError::DecryptionFailed),
    ));
}

/// The two keys of a final state that a responder reaches differ, with a
/// vault that derives distinct keys.
pub proof fn law_responder_keys_differ<V: XXVault, P: TrustPolicy>(
    vault: &V,
    policy: &P,
    state: HandshakeView,
    event: EventView,
    now: u64,
)
    requires
        vault_derives_distinct_keys(vault),
        state.final_state is None,
    ensures
        spec_responder_step(vault, policy, state, event, now).0.final_state matches Some(reached)
            ==> reached.encryption_key != reached.decryption_key,
{
}

/// The two keys of a final state that an initiator reaches differ, with a
/// vault that derives distinct keys.
pub proof fn law_initiator_keys_differ<V: XXVault, P: TrustPolicy>(
    vault: &V,
    policy: &P,
    state: HandshakeView,
    event: EventView,
    now: u64,
)
    requires
        vault_derives_distinct_keys(vault),
        state.final_state is None,
    ensures
        spec_initiator_step(vault, policy, state, event, now).0.final_state matches Some(reached)
            ==> reached.encryption_key != reached.decryption_key,
{
}

/// After a handshake between compatible ends, with a vault that derives
/// distinct keys, each side encrypts with another key than it decrypts
/// with: the two directions of the channel have keys of their own.
pub proof fn law_directions_have_keys_of_their_own<
    V: XXVault,
    PI: TrustPolicy,
    PR: TrustPolicy,
>(
    vault: &V,
    initiator_policy: &PI,
    responder_policy: &PR,
    initiator: HandshakeView,
    responder: HandshakeView,
    time_of_message2: u64,
    time_of_message3: u64,
)
    requires
        compatible(
            vault,
            initiator_policy,
            responder_policy,
            initiator,
            responder,
            time_of_message2,
            time_of_message3,
        ),
        vault_derives_distinct_keys(vault),
    ensures
        match spec_exchange(
            vault,
            initiator_policy,
            responder_policy,
            initiator,
            responder,
            time_of_message2,
            time_of_message3,
        ) {
            Some((i, r)) => match (i.final_state, r.final_state) {
                (Some(ours), Some(theirs)) => ours.encryption_key != ours.decryption_key
                    && theirs.encryption_key != theirs.decryption_key,
                _ => false,
            },
            None => false,
        },
{
    law_compatible_ends_complete(
        vault,
        initiator_policy,
        responder_policy,
        initiator,
        responder,
        time_of_message2,
        time_of_message3,
    );
    let i1 = spec_initiator_step(vault, initiator_policy, initiator, EventView::Initialize, 0);
    let r1 = spec_responder_step(vault, responder_policy, responder, EventView::Initialize, 0);
    let message1 = i1.1->Ok_0->SendMessage_0;
    let r2 = spec_responder_step(
        vault,
        responder_policy,
        r1.0,
        EventView::ReceivedMessage(message1),
        0,
    );
    let message2 = r2.1->Ok_0->SendMessage_0;
    let message3 = spec_initiator_step(
        vault,
        initiator_policy,
        i1.0,
        EventView::ReceivedMessage(message2),
        time_of_message2,
    ).1->Ok_0->SendMessage_0;
    assert(i1.0.final_state is None);
    assert(r1.0.final_state is None);
    assert(r2.0.final_state is None);
    law_initiator_keys_differ(
        vault,
        initiator_policy,
        i1.0,
        EventView::ReceivedMessage(message2),
        time_of_message2,
    );
    law_responder_keys_differ(
        vault,
        responder_policy,
        r2.0,
        EventView::ReceivedMessage(message3),
        time_of_message3,
    );
}

} // verus!
