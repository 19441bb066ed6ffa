use secure_channel::credential::{Attribute, Credential, TrustContext};
use secure_channel::error::{ErrorKind, HandshakeError};
use secure_channel::handshake::{Handshake, Role, Status};
use secure_channel::handshake_state_machine::{Action, Event, StateMachine};
use secure_channel::identity::{verify_change_history, Change, ChangeHistory, Identity};
use secure_channel::initiator_state_machine::InitiatorStateMachine;
use secure_channel::model_vault::ModelVault;
use secure_channel::responder_state_machine::ResponderStateMachine;
use secure_channel::trust_policy::{
    TrustEveryonePolicy, TrustIdentifierPolicy, TrustMultiIdentifiersPolicy,
};
use secure_channel::vault::XXVault;

const NOW: u64 = 1_700_000_000;

fn first_change(signing_key: &[u8]) -> Change {
    let vault = ModelVault;
    let mut change = Change {
        previous_change: None,
        public_key: vault.verifying_key(signing_key),
        signature: Vec::new(),
        previous_signature: None,
    };
    change.signature = vault.sign(signing_key, &change.hash(&vault));
    change
}

fn identity_of(signing_key: &[u8]) -> Identity {
    verify_change_history(&ModelVault, ChangeHistory(vec![first_change(signing_key)])).unwrap()
}

fn credential(
    issuer_key: &[u8],
    subject: &Identity,
    expires_at: Option<u64>,
) -> Credential {
    let vault = ModelVault;
    let mut credential = Credential {
        subject: subject.identifier().clone(),
        issuer: identity_of(issuer_key).identifier().clone(),
        attributes: vec![Attribute { name: b"role".to_vec(), value: b"member".to_vec() }],
        created_at: NOW - 100,
        expires_at,
        signature: Vec::new(),
    };
    credential.signature = vault.sign(issuer_key, &credential.signed_data());
    credential
}

fn proof_of(signing_key: &[u8], static_secret: &[u8]) -> Vec<u8> {
    let vault = ModelVault;
    vault.sign(signing_key, &vault.public_key(static_secret))
}

const ALICE: &[u8] = b"alice signing key";
const BOB: &[u8] = b"bob signing key";
const AUTHORITY: &[u8] = b"authority signing key";
const ALICE_STATIC: &[u8] = b"alice static secret 000000000001";
const ALICE_EPHEMERAL: &[u8] = b"alice ephemeral secret 000000002";
const BOB_STATIC: &[u8] = b"bob static secret 00000000000003";
const BOB_EPHEMERAL: &[u8] = b"bob ephemeral secret 00000000004";

fn alice(
    credentials: Vec<Credential>,
) -> InitiatorStateMachine<ModelVault, TrustEveryonePolicy> {
    InitiatorStateMachine::with_keys(
        ModelVault,
        ALICE_STATIC.to_vec(),
        ALICE_EPHEMERAL.to_vec(),
        identity_of(ALICE),
        proof_of(ALICE, ALICE_STATIC),
        credentials,
        TrustEveryonePolicy,
        None,
    )
}

fn bob_with<P: secure_channel::trust_policy::TrustPolicy>(
    policy: P,
    trust_context: Option<TrustContext>,
) -> ResponderStateMachine<ModelVault, P> {
    ResponderStateMachine::with_keys(
        ModelVault,
        BOB_STATIC.to_vec(),
        BOB_EPHEMERAL.to_vec(),
        identity_of(BOB),
        proof_of(BOB, BOB_STATIC),
        Vec::new(),
        policy,
        trust_context,
    )
}

fn sent(action: Action) -> Vec<u8> {
    match action {
        Action::SendMessage(message) => message,
        Action::NoAction => panic!("a message was expected"),
    }
}

/// Drives both machines up to the point where the responder has answered
/// the first message; returns the second message.
fn exchange_two<P: secure_channel::trust_policy::TrustPolicy>(
    initiator: &mut InitiatorStateMachine<ModelVault, TrustEveryonePolicy>,
    responder: &mut ResponderStateMachine<ModelVault, P>,
) -> Vec<u8> {
    let message1 = sent(initiator.on_event(Event::Initialize, NOW).unwrap());
    assert_eq!(responder.on_event(Event::Initialize, NOW).unwrap(), Action::NoAction);
    sent(responder.on_event(Event::ReceivedMessage(message1), NOW).unwrap())
}

#[test]
fn model_vault_has_the_algebra_of_a_vault() {
    let vault = ModelVault;
    let (a, b) = (ALICE_STATIC, BOB_STATIC);
    assert_eq!(vault.public_key(a).len(), 32);
    assert_eq!(vault.dh(a, &vault.public_key(b)), vault.dh(b, &vault.public_key(a)));
    let sealed = vault.encrypt(a, b"ad", b"plaintext");
    assert_eq!(sealed.len(), 9 + 16);
    assert_eq!(vault.decrypt(a, b"ad", &sealed), Some(b"plaintext".to_vec()));
    assert_eq!(vault.decrypt(a, b"other", &sealed), None);
    let signature = vault.sign(a, b"data");
    assert!(vault.verify(&vault.verifying_key(a), b"data", &signature));
    assert!(!vault.verify(&vault.verifying_key(b), b"data", &signature));
    assert_eq!(vault.generate_secret().len(), 32);
}

#[test]
fn handshake_reaches_done_with_matching_keys() {
    let mut initiator = alice(Vec::new());
    let mut responder = bob_with(TrustEveryonePolicy, None);
    assert_eq!(initiator.status(), Status::Initial);
    assert_eq!(responder.status(), Status::Initial);

    let message1 = sent(initiator.on_event(Event::Initialize, NOW).unwrap());
    assert_eq!(initiator.status(), Status::WaitingForMessage2);
    assert_eq!(message1, ModelVault.public_key(ALICE_EPHEMERAL));

    assert_eq!(responder.on_event(Event::Initialize, NOW).unwrap(), Action::NoAction);
    assert_eq!(responder.status(), Status::WaitingForMessage1);

    let message2 = sent(responder.on_event(Event::ReceivedMessage(message1), NOW).unwrap());
    assert_eq!(responder.status(), Status::WaitingForMessage3);
    assert!(responder.get_final_state().is_none());

    let message3 = sent(initiator.on_event(Event::ReceivedMessage(message2), NOW).unwrap());
    assert_eq!(initiator.status(), Status::Done);

    assert_eq!(responder.on_event(Event::ReceivedMessage(message3), NOW).unwrap(), Action::NoAction);
    assert_eq!(responder.status(), Status::Done);

    let ours = initiator.get_final_state().unwrap();
    let theirs = responder.get_final_state().unwrap();
    assert_eq!(ours.role, Role::Initiator);
    assert_eq!(theirs.role, Role::Responder);
    assert_eq!(ours.encryption_key, theirs.decryption_key);
    assert_eq!(ours.decryption_key, theirs.encryption_key);
    assert_ne!(ours.encryption_key, ours.decryption_key);
    assert_eq!(ours.their_identity, identity_of(BOB));
    assert_eq!(theirs.their_identity, identity_of(ALICE));
}

#[test]
fn machines_with_secrets_from_the_vault_complete_too() {
    let mut initiator = InitiatorStateMachine::new(
        ModelVault,
        identity_of(ALICE),
        ALICE,
        Vec::new(),
        TrustIdentifierPolicy::new(identity_of(BOB).identifier().clone()),
        None,
    );
    let mut responder = ResponderStateMachine::new(
        ModelVault,
        identity_of(BOB),
        BOB,
        Vec::new(),
        TrustIdentifierPolicy::new(identity_of(ALICE).identifier().clone()),
        None,
    );
    let message1 = sent(initiator.on_event(Event::Initialize, NOW).unwrap());
    responder.on_event(Event::Initialize, NOW).unwrap();
    let message2 = sent(responder.on_event(Event::ReceivedMessage(message1), NOW).unwrap());
    let message3 = sent(initiator.on_event(Event::ReceivedMessage(message2), NOW).unwrap());
    responder.on_event(Event::ReceivedMessage(message3), NOW).unwrap();
    let ours = initiator.get_final_state().unwrap();
    let theirs = responder.get_final_state().unwrap();
    assert_eq!(ours.encryption_key, theirs.decryption_key);
    assert_eq!(ours.decryption_key, theirs.encryption_key);
}

#[test]
fn truncated_message1_is_refused_for_good() {
    let mut initiator = alice(Vec::new());
    let mut responder = bob_with(TrustEveryonePolicy, None);
    let message1 = sent(initiator.on_event(Event::Initialize, NOW).unwrap());
    responder.on_event(Event::Initialize, NOW).unwrap();

    let error = responder.on_event(Event::ReceivedMessage(message1[..31].to_vec()), NOW);
    assert_eq!(error, Err(HandshakeError::Invalid));
    assert_eq!(responder.status(), Status::Failed);
    assert!(responder.get_final_state().is_none());

    // The genuine message comes too late.
    let error = responder.on_event(Event::ReceivedMessage(message1), NOW);
    assert_eq!(error, Err(HandshakeError::Invalid));
    assert!(responder.get_final_state().is_none());
}

#[test]
fn malformed_message2_is_refused_for_good() {
    for garbage in [Vec::new(), vec![0u8; 79], vec![7u8; 200]] {
        let mut initiator = alice(Vec::new());
        let mut responder = bob_with(TrustEveryonePolicy, None);
        let message2 = exchange_two(&mut initiator, &mut responder);
        assert!(initiator.on_event(Event::ReceivedMessage(garbage), NOW).is_err());
        assert_eq!(initiator.status(), Status::Failed);
        assert!(initiator.get_final_state().is_none());
        assert_eq!(
            initiator.on_event(Event::ReceivedMessage(message2), NOW),
            Err(HandshakeError::Invalid)
        );
        assert!(initiator.get_final_state().is_none());
    }
}

#[test]
fn malformed_message3_is_refused_for_good() {
    for garbage in [Vec::new(), vec![0u8; 47], vec![9u8; 120]] {
        let mut initiator = alice(Vec::new());
        let mut responder = bob_with(TrustEveryonePolicy, None);
        let message2 = exchange_two(&mut initiator, &mut responder);
        let message3 = sent(initiator.on_event(Event::ReceivedMessage(message2), NOW).unwrap());
        assert!(responder.on_event(Event::ReceivedMessage(garbage), NOW).is_err());
        assert_eq!(responder.status(), Status::Failed);
        assert!(responder.get_final_state().is_none());
        assert_eq!(
            responder.on_event(Event::ReceivedMessage(message3), NOW),
            Err(HandshakeError::Invalid)
        );
        assert!(responder.get_final_state().is_none());
    }
}

#[test]
fn too_short_messages_are_protocol_errors() {
    let mut initiator = alice(Vec::new());
    let mut responder = bob_with(TrustEveryonePolicy, None);
    exchange_two(&mut initiator, &mut responder);
    let error = initiator.on_event(Event::ReceivedMessage(vec![0u8; 79]), NOW).unwrap_err();
    assert_eq!(error, HandshakeError::Invalid);
    assert_eq!(error.kind(), ErrorKind::Protocol);
    let error = responder.on_event(Event::ReceivedMessage(vec![0u8; 47]), NOW).unwrap_err();
    assert_eq!(error, HandshakeError::Invalid);
}

#[test]
fn credential_for_another_subject_is_a_subject_mismatch() {
    // The authority attests Bob, and Alice presents the credential as hers.
    let stolen = credential(AUTHORITY, &identity_of(BOB), None);
    let mut initiator = alice(vec![stolen]);
    let mut responder =
        bob_with(TrustEveryonePolicy, Some(TrustContext::new(vec![identity_of(AUTHORITY)])));
    let message2 = exchange_two(&mut initiator, &mut responder);
    let message3 = sent(initiator.on_event(Event::ReceivedMessage(message2), NOW).unwrap());
    let error = responder.on_event(Event::ReceivedMessage(message3), NOW).unwrap_err();
    assert_eq!(error, HandshakeError::SubjectMismatch);
    assert_eq!(error.kind(), ErrorKind::Authentication);
    assert!(responder.get_final_state().is_none());
}

#[test]
fn foreign_credential_decides_even_after_an_expired_one() {
    let expired = credential(AUTHORITY, &identity_of(ALICE), Some(NOW - 1));
    let stolen = credential(AUTHORITY, &identity_of(BOB), None);
    let mut initiator = alice(vec![expired, stolen]);
    let mut responder =
        bob_with(TrustEveryonePolicy, Some(TrustContext::new(vec![identity_of(AUTHORITY)])));
    let message2 = exchange_two(&mut initiator, &mut responder);
    let message3 = sent(initiator.on_event(Event::ReceivedMessage(message2), NOW).unwrap());
    assert_eq!(
        responder.on_event(Event::ReceivedMessage(message3), NOW),
        Err(HandshakeError::SubjectMismatch)
    );
}

#[test]
fn expired_credential_is_refused() {
    let expired = credential(AUTHORITY, &identity_of(ALICE), Some(NOW - 1));
    let mut initiator = alice(vec![expired]);
    let mut responder =
        bob_with(TrustEveryonePolicy, Some(TrustContext::new(vec![identity_of(AUTHORITY)])));
    let message2 = exchange_two(&mut initiator, &mut responder);
    let message3 = sent(initiator.on_event(Event::ReceivedMessage(message2), NOW).unwrap());
    let error = responder.on_event(Event::ReceivedMessage(message3), NOW).unwrap_err();
    assert_eq!(error, HandshakeError::Expired);
    assert_eq!(error.kind(), ErrorKind::Authentication);
    assert_eq!(responder.status(), Status::Failed);
}

#[test]
fn credential_that_expires_now_still_holds() {
    let current = credential(AUTHORITY, &identity_of(ALICE), Some(NOW));
    let mut initiator = alice(vec![current]);
    let mut responder =
        bob_with(TrustEveryonePolicy, Some(TrustContext::new(vec![identity_of(AUTHORITY)])));
    let message2 = exchange_two(&mut initiator, &mut responder);
    let message3 = sent(initiator.on_event(Event::ReceivedMessage(message2), NOW).unwrap());
    assert_eq!(responder.on_event(Event::ReceivedMessage(message3), NOW), Ok(Action::NoAction));
}

#[test]
fn credentials_without_a_trust_context_fail_closed() {
    let good = credential(AUTHORITY, &identity_of(ALICE), None);
    let mut initiator = alice(vec![good]);
    let mut responder = bob_with(TrustEveryonePolicy, None);
    let message2 = exchange_two(&mut initiator, &mut responder);
    let message3 = sent(initiator.on_event(Event::ReceivedMessage(message2), NOW).unwrap());
    assert_eq!(
        responder.on_event(Event::ReceivedMessage(message3), NOW),
        Err(HandshakeError::UnknownIssuer)
    );
}

#[test]
fn same_message1_twice_is_a_protocol_error() {
    let mut initiator = alice(Vec::new());
    let mut responder = bob_with(TrustEveryonePolicy, None);
    let message1 = sent(initiator.on_event(Event::Initialize, NOW).unwrap());
    responder.on_event(Event::Initialize, NOW).unwrap();
    assert!(responder.on_event(Event::ReceivedMessage(message1.clone()), NOW).is_ok());
    let error = responder.on_event(Event::ReceivedMessage(message1), NOW).unwrap_err();
    assert_eq!(error, HandshakeError::Invalid);
    assert_eq!(error.kind(), ErrorKind::Protocol);
    assert!(error.may_retry());
}

#[test]
fn same_message2_twice_is_a_protocol_error() {
    let mut initiator = alice(Vec::new());
    let mut responder = bob_with(TrustEveryonePolicy, None);
    let message2 = exchange_two(&mut initiator, &mut responder);
    assert!(initiator.on_event(Event::ReceivedMessage(message2.clone()), NOW).is_ok());
    assert_eq!(
        initiator.on_event(Event::ReceivedMessage(message2), NOW),
        Err(HandshakeError::Invalid)
    );
    // The channel that was established stays established.
    assert!(initiator.get_final_state().is_some());
}

#[test]
fn same_message3_twice_is_a_protocol_error() {
    let mut initiator = alice(Vec::new());
    let mut responder = bob_with(TrustEveryonePolicy, None);
    let message2 = exchange_two(&mut initiator, &mut responder);
    let message3 = sent(initiator.on_event(Event::ReceivedMessage(message2), NOW).unwrap());
    assert!(responder.on_event(Event::ReceivedMessage(message3.clone()), NOW).is_ok());
    assert_eq!(
        responder.on_event(Event::ReceivedMessage(message3), NOW),
        Err(HandshakeError::Invalid)
    );
}

#[test]
fn events_out_of_place_are_invalid_and_change_nothing() {
    let mut initiator = alice(Vec::new());
    let mut responder = bob_with(TrustEveryonePolicy, None);
    // A message before the attempt has started.
    assert_eq!(
        responder.on_event(Event::ReceivedMessage(vec![1u8; 32]), NOW),
        Err(HandshakeError::Invalid)
    );
    assert_eq!(responder.status(), Status::Initial);
    assert_eq!(
        initiator.on_event(Event::ReceivedMessage(vec![1u8; 100]), NOW),
        Err(HandshakeError::Invalid)
    );
    assert_eq!(initiator.status(), Status::Initial);
    // The attempt starts once.
    initiator.on_event(Event::Initialize, NOW).unwrap();
    responder.on_event(Event::Initialize, NOW).unwrap();
    assert_eq!(initiator.on_event(Event::Initialize, NOW), Err(HandshakeError::Invalid));
    assert_eq!(responder.on_event(Event::Initialize, NOW), Err(HandshakeError::Invalid));
    assert_eq!(initiator.status(), Status::WaitingForMessage2);
    assert_eq!(responder.status(), Status::WaitingForMessage1);
}

#[test]
fn alice_with_a_credential_reaches_bob_who_allows_her() {
    let membership = credential(AUTHORITY, &identity_of(ALICE), Some(NOW + 3600));
    let mut initiator = alice(vec![membership]);
    let mut responder = bob_with(
        TrustMultiIdentifiersPolicy::new(vec![identity_of(ALICE).identifier().clone()]),
        Some(TrustContext::new(vec![identity_of(AUTHORITY)])),
    );
    let message2 = exchange_two(&mut initiator, &mut responder);
    let message3 = sent(initiator.on_event(Event::ReceivedMessage(message2), NOW).unwrap());
    assert_eq!(responder.on_event(Event::ReceivedMessage(message3), NOW), Ok(Action::NoAction));
    assert_eq!(initiator.status(), Status::Done);
    assert_eq!(responder.status(), Status::Done);
    assert_eq!(responder.get_final_state().unwrap().their_identity, identity_of(ALICE));
}

#[test]
fn bob_who_allows_someone_else_rejects_alice_at_message3() {
    let membership = credential(AUTHORITY, &identity_of(ALICE), Some(NOW + 3600));
    let mut initiator = alice(vec![membership]);
    let mut responder = bob_with(
        TrustMultiIdentifiersPolicy::new(vec![identity_of(AUTHORITY).identifier().clone()]),
        Some(TrustContext::new(vec![identity_of(AUTHORITY)])),
    );
    // The first two messages succeed.
    let message2 = exchange_two(&mut initiator, &mut responder);
    let message3 = sent(initiator.on_event(Event::ReceivedMessage(message2), NOW).unwrap());
    let error = responder.on_event(Event::ReceivedMessage(message3), NOW).unwrap_err();
    assert_eq!(error, HandshakeError::PolicyRejected);
    assert_eq!(error.kind(), ErrorKind::Authorization);
    assert!(error.peer_is_authenticated());
    assert!(!error.may_retry());
    assert!(responder.get_final_state().is_none());
    assert_eq!(responder.status(), Status::Failed);
}

#[test]
fn tampered_message2_is_an_authentication_error() {
    let mut initiator = alice(Vec::new());
    let mut responder = bob_with(TrustEveryonePolicy, None);
    let mut message2 = exchange_two(&mut initiator, &mut responder);
    // One byte inside the encrypted identity payload.
    let position = 32 + 48 + 5;
    message2[position] ^= 0x01;
    let error = initiator.on_event(Event::ReceivedMessage(message2), NOW).unwrap_err();
    assert_eq!(error, HandshakeError::DecryptionFailed);
    assert_eq!(error.kind(), ErrorKind::Authentication);
    assert!(initiator.get_final_state().is_none());
    assert_eq!(initiator.status(), Status::Failed);
}

#[test]
fn tampered_static_key_is_an_authentication_error() {
    let mut initiator = alice(Vec::new());
    let mut responder = bob_with(TrustEveryonePolicy, None);
    let mut message2 = exchange_two(&mut initiator, &mut responder);
    message2[40] ^= 0x80;
    assert_eq!(
        initiator.on_event(Event::ReceivedMessage(message2), NOW),
        Err(HandshakeError::DecryptionFailed)
    );
}

#[test]
fn proof_for_another_static_key_is_an_invalid_signature() {
    let mut initiator = InitiatorStateMachine::with_keys(
        ModelVault,
        ALICE_STATIC.to_vec(),
        ALICE_EPHEMERAL.to_vec(),
        identity_of(ALICE),
        proof_of(ALICE, BOB_STATIC),
        Vec::new(),
        TrustEveryonePolicy,
        None,
    );
    let mut responder = bob_with(TrustEveryonePolicy, None);
    let message2 = exchange_two(&mut initiator, &mut responder);
    let message3 = sent(initiator.on_event(Event::ReceivedMessage(message2), NOW).unwrap());
    assert_eq!(
        responder.on_event(Event::ReceivedMessage(message3), NOW),
        Err(HandshakeError::InvalidSignature)
    );
}

#[test]
fn engine_refuses_operations_out_of_order() {
    let mut engine = Handshake::with_keys(
        Role::Initiator,
        ModelVault,
        ALICE_STATIC.to_vec(),
        ALICE_EPHEMERAL.to_vec(),
        identity_of(ALICE),
        proof_of(ALICE, ALICE_STATIC),
        Vec::new(),
        TrustEveryonePolicy,
        None,
    );
    assert_eq!(engine.encode_message1(), Err(HandshakeError::Invalid));
    assert_eq!(engine.decode_message2(vec![0u8; 100]).err(), Some(HandshakeError::Invalid));
    assert_eq!(engine.status(), Status::Initial);
    assert_eq!(engine.initialize(), Ok(()));
    assert_eq!(engine.initialize(), Err(HandshakeError::Invalid));
    assert_eq!(engine.decode_message1(vec![0u8; 32]), Err(HandshakeError::Invalid));
    assert_eq!(engine.encode_message3(), Err(HandshakeError::Invalid));
    assert!(engine
        .set_final_state(identity_of(BOB), Role::Initiator)
        .is_err());
    assert_eq!(engine.status(), Status::WaitingToSend1);
    assert!(engine.encode_message1().is_ok());
    assert_eq!(engine.status(), Status::WaitingForMessage2);
    assert!(engine.get_final_state().is_none());
    engine.abort();
    assert_eq!(engine.status(), Status::Failed);
    assert_eq!(engine.role(), Role::Initiator);
}

#[test]
fn any_changed_byte_of_the_payload_of_message2_is_noticed() {
    let mut initiator = alice(Vec::new());
    let mut responder = bob_with(TrustEveryonePolicy, None);
    let message2 = exchange_two(&mut initiator, &mut responder);
    for position in (32 + 48)..message2.len() {
        let mut initiator = alice(Vec::new());
        initiator.on_event(Event::Initialize, NOW).unwrap();
        let mut changed = message2.clone();
        changed[position] = changed[position].wrapping_add(1);
        assert_eq!(
            initiator.on_event(Event::ReceivedMessage(changed), NOW),
            Err(HandshakeError::DecryptionFailed)
        );
        assert!(initiator.get_final_state().is_none());
    }
}

#[test]
fn derived_keys_differ() {
    let vault = ModelVault;
    let (first, second) = vault.hkdf(b"chaining key", b"");
    assert_ne!(first, second);
    assert_ne!(first[0], second[0]);
}
