use secure_channel::codec::Wire;
use secure_channel::credential::{
    issue_credential, verify_credential, verify_credentials, Attribute, Credential,
    TrustContext, MAX_CREDENTIAL_VALIDITY,
};
use secure_channel::error::HandshakeError::{
    BrokenChain, DecryptionFailed, EmptyHistory, Expired, Invalid, InvalidSignature,
    PolicyRejected, SubjectMismatch, UnknownIssuer,
};
use secure_channel::error::{ErrorKind, HandshakeError};
use secure_channel::identity::{
    create_identity, rotate_key, verify_change_history, verify_update, Change, ChangeHistory,
    Identifier, Identity,
};
use secure_channel::model_vault::ModelVault;
use secure_channel::payload::IdentityAndCredentials;
use secure_channel::trust_policy::{
    TrustEveryonePolicy, TrustIdentifierPolicy, TrustMultiIdentifiersPolicy, TrustPolicy,
};
use secure_channel::vault::XXVault;

const NOW: u64 = 1_700_000_000;
const FIRST: &[u8] = b"first signing key";
const SECOND: &[u8] = b"second signing key";
const AUTHORITY: &[u8] = b"authority signing key";

fn first_change(signing_key: &[u8]) -> Change {
    let vault = ModelVault;
    let mut change = Change {
        previous_change: None,
        public_key: vault.verifying_key(signing_key),
        signature: Vec::new(),
        previous_signature: None,
    };
    change.signature = vault.sign(signing_key, &change.hash(&vault));
    change
}

fn rotation(before: &Change, old_key: &[u8], new_key: &[u8]) -> Change {
    let vault = ModelVault;
    let mut change = Change {
        previous_change: Some(before.hash(&vault)),
        public_key: vault.verifying_key(new_key),
        signature: Vec::new(),
        previous_signature: None,
    };
    let digest = change.hash(&vault);
    change.signature = vault.sign(new_key, &digest);
    change.previous_signature = Some(vault.sign(old_key, &digest));
    change
}

fn identity_of(signing_key: &[u8]) -> Identity {
    verify_change_history(&ModelVault, ChangeHistory(vec![first_change(signing_key)])).unwrap()
}

fn credential(issuer_key: &[u8], subject: &Identity, expires_at: Option<u64>) -> Credential {
    let vault = ModelVault;
    let mut credential = Credential {
        subject: subject.identifier().clone(),
        issuer: identity_of(issuer_key).identifier().clone(),
        attributes: vec![
            Attribute { name: b"role".to_vec(), value: b"member".to_vec() },
            Attribute { name: b"team".to_vec(), value: Vec::new() },
        ],
        created_at: NOW - 100,
        expires_at,
        signature: Vec::new(),
    };
    credential.signature = vault.sign(issuer_key, &credential.signed_data());
    credential
}

#[test]
fn history_of_one_change_defines_an_identity() {
    let change = first_change(FIRST);
    let identity = verify_change_history(&ModelVault, ChangeHistory(vec![change.clone()])).unwrap();
    assert_eq!(identity.identifier(), &Identifier(change.hash(&ModelVault)));
    assert_eq!(identity.change_history(), &ChangeHistory(vec![change.clone()]));
    assert_eq!(identity.current_key(), &change.public_key);
}

#[test]
fn rotated_history_keeps_the_identifier_and_changes_the_key() {
    let first = first_change(FIRST);
    let second = rotation(&first, FIRST, SECOND);
    let identity =
        verify_change_history(&ModelVault, ChangeHistory(vec![first.clone(), second.clone()]))
            .unwrap();
    assert_eq!(identity.identifier(), identity_of(FIRST).identifier());
    assert_eq!(identity.current_key(), &ModelVault.verifying_key(SECOND));
}

#[test]
fn empty_history_is_rejected() {
    assert_eq!(
        verify_change_history(&ModelVault, ChangeHistory(Vec::new())),
        Err(HandshakeError::EmptyHistory)
    );
}

#[test]
fn first_change_with_a_bad_signature_is_rejected() {
    let mut change = first_change(FIRST);
    change.signature[0] ^= 1;
    assert_eq!(
        verify_change_history(&ModelVault, ChangeHistory(vec![change])),
        Err(HandshakeError::InvalidSignature)
    );
}

#[test]
fn first_change_that_links_back_is_a_broken_chain() {
    let mut change = first_change(FIRST);
    change.previous_signature = Some(vec![1, 2, 3]);
    assert_eq!(
        verify_change_history(&ModelVault, ChangeHistory(vec![change])),
        Err(HandshakeError::BrokenChain)
    );
}

#[test]
fn rotation_without_a_link_is_a_broken_chain() {
    let first = first_change(FIRST);
    let mut second = rotation(&first, FIRST, SECOND);
    second.previous_change = None;
    assert_eq!(
        verify_change_history(&ModelVault, ChangeHistory(vec![first.clone(), second])),
        Err(HandshakeError::BrokenChain)
    );
    let mut second = rotation(&first, FIRST, SECOND);
    second.previous_signature = None;
    assert_eq!(
        verify_change_history(&ModelVault, ChangeHistory(vec![first.clone(), second])),
        Err(HandshakeError::BrokenChain)
    );
    // Two first changes in a row do not make a history.
    assert_eq!(
        verify_change_history(&ModelVault, ChangeHistory(vec![first.clone(), first_change(SECOND)])),
        Err(HandshakeError::BrokenChain)
    );
}

#[test]
fn rotation_not_signed_by_the_replaced_key_is_rejected() {
    let first = first_change(FIRST);
    let second = rotation(&first, SECOND, SECOND);
    assert_eq!(
        verify_change_history(&ModelVault, ChangeHistory(vec![first, second])),
        Err(HandshakeError::InvalidSignature)
    );
}

#[test]
fn corrupt_tail_rejects_the_whole_history() {
    let first = first_change(FIRST);
    let second = rotation(&first, FIRST, SECOND);
    let mut third = rotation(&second, SECOND, FIRST);
    third.signature = vec![0; 32];
    assert_eq!(
        verify_change_history(&ModelVault, ChangeHistory(vec![first, second, third])),
        Err(HandshakeError::InvalidSignature)
    );
}

#[test]
fn valid_credential_yields_its_attributes() {
    let subject = identity_of(FIRST);
    let context = Some(TrustContext::new(vec![identity_of(SECOND), identity_of(AUTHORITY)]));
    let presented = credential(AUTHORITY, &subject, Some(NOW + 1));
    let attributes =
        verify_credential(&ModelVault, &presented, subject.identifier(), &context, NOW).unwrap();
    assert_eq!(attributes, presented.attributes);
    assert_eq!(
        verify_credentials(
            &ModelVault,
            &vec![presented.clone(), presented],
            subject.identifier(),
            &context,
            NOW
        ),
        Ok(())
    );
}

#[test]
fn each_credential_error_has_its_input() {
    let subject = identity_of(FIRST);
    let other = identity_of(SECOND);
    let context = Some(TrustContext::new(vec![identity_of(AUTHORITY)]));
    let good = credential(AUTHORITY, &subject, None);

    let check = |credential: &Credential, context: &Option<TrustContext>| {
        verify_credential(&ModelVault, credential, subject.identifier(), context, NOW)
    };
    assert!(check(&good, &context).is_ok());
    assert_eq!(
        check(&credential(AUTHORITY, &other, None), &context),
        Err(HandshakeError::SubjectMismatch)
    );
    assert_eq!(
        check(&credential(AUTHORITY, &subject, Some(NOW - 1)), &context),
        Err(HandshakeError::Expired)
    );
    assert_eq!(check(&good, &None), Err(HandshakeError::UnknownIssuer));
    assert_eq!(
        check(&credential(SECOND, &subject, None), &context),
        Err(HandshakeError::UnknownIssuer)
    );
    let mut forged = credential(AUTHORITY, &subject, None);
    forged.attributes[0].value = b"admin".to_vec();
    assert_eq!(check(&forged, &context), Err(HandshakeError::InvalidSignature));
    // Mismatch and expiry are found whatever the signature.
    let mut unsigned = credential(AUTHORITY, &other, Some(NOW - 1));
    unsigned.signature = Vec::new();
    assert_eq!(check(&unsigned, &context), Err(HandshakeError::SubjectMismatch));
    let mut unsigned = credential(AUTHORITY, &subject, Some(NOW - 1));
    unsigned.signature = Vec::new();
    assert_eq!(check(&unsigned, &context), Err(HandshakeError::Expired));
}

#[test]
fn one_bad_credential_fails_them_all_in_any_order() {
    let subject = identity_of(FIRST);
    let context = Some(TrustContext::new(vec![identity_of(AUTHORITY)]));
    let good = credential(AUTHORITY, &subject, None);
    let expired = credential(AUTHORITY, &subject, Some(NOW - 1));
    for presented in [vec![good.clone(), expired.clone()], vec![expired, good]] {
        assert_eq!(
            verify_credentials(&ModelVault, &presented, subject.identifier(), &context, NOW),
            Err(HandshakeError::Expired)
        );
    }
}

#[test]
fn payload_survives_encoding() {
    let subject = identity_of(FIRST);
    let first = first_change(FIRST);
    let payload = IdentityAndCredentials {
        change_history: ChangeHistory(vec![first.clone(), rotation(&first, FIRST, SECOND)]),
        proof: vec![1, 2, 3],
        credentials: vec![
            credential(AUTHORITY, &subject, None),
            credential(AUTHORITY, &subject, Some(7)),
        ],
    };
    let bytes = payload.encode();
    assert_eq!(IdentityAndCredentials::decode(&bytes), Some(payload));
    // Trailing bytes, truncation and unknown tags are refused.
    let mut longer = bytes.clone();
    longer.push(0);
    assert_eq!(IdentityAndCredentials::decode(&longer), None);
    assert_eq!(IdentityAndCredentials::decode(&bytes[..bytes.len() - 1]), None);
    assert_eq!(IdentityAndCredentials::decode(&[]), None);
}

#[test]
fn empty_payload_has_a_known_encoding() {
    let payload = IdentityAndCredentials {
        change_history: ChangeHistory(Vec::new()),
        proof: vec![0xab],
        credentials: Vec::new(),
    };
    let mut expected = vec![0u8; 8];
    expected.extend_from_slice(&[1, 0, 0, 0, 0, 0, 0, 0, 0xab]);
    expected.extend_from_slice(&[0u8; 8]);
    assert_eq!(payload.encode(), expected);
}

#[test]
fn change_has_a_known_encoding() {
    let change = Change {
        previous_change: None,
        public_key: vec![7, 8],
        signature: vec![9],
        previous_signature: Some(Vec::new()),
    };
    let mut bytes = Vec::new();
    change.encode(&mut bytes);
    assert_eq!(
        bytes,
        vec![0, 2, 0, 0, 0, 0, 0, 0, 0, 7, 8, 1, 0, 0, 0, 0, 0, 0, 0, 9, 1, 0, 0, 0, 0, 0, 0, 0, 0]
    );
    assert_eq!(Change::parse(&bytes, 0), Some((change, bytes.len())));
    assert_eq!(Change::parse(&[2], 0), None);
}

#[test]
fn policies_decide_by_identifier() {
    let (first, second) = (identity_of(FIRST), identity_of(SECOND));
    assert!(TrustEveryonePolicy.check(&first));
    let one = TrustIdentifierPolicy::new(first.identifier().clone());
    assert!(one.check(&first));
    assert!(!one.check(&second));
    let none = TrustMultiIdentifiersPolicy::new(Vec::new());
    assert!(!none.check(&first));
    let both = TrustMultiIdentifiersPolicy::new(vec![
        second.identifier().clone(),
        first.identifier().clone(),
    ]);
    assert!(both.check(&first));
    assert!(both.check(&second));
    assert!(!both.check(&identity_of(AUTHORITY)));
}

#[test]
fn every_error_has_its_kind() {

    assert_eq!(Invalid.kind(), ErrorKind::Protocol);
    assert_eq!(PolicyRejected.kind(), ErrorKind::Authorization);
    for error in [
        EmptyHistory,
        BrokenChain,
        InvalidSignature,
        DecryptionFailed,
        Expired,
        UnknownIssuer,
        SubjectMismatch,
    ] {
        assert_eq!(error.kind(), ErrorKind::Authentication);
        assert!(!error.may_retry());
        assert!(!error.peer_is_authenticated());
    }
    assert!(Invalid.may_retry());
    assert!(PolicyRejected.peer_is_authenticated());
}

#[test]
fn created_identity_is_the_history_of_its_first_change() {
    let identity = create_identity(&ModelVault, FIRST).unwrap();
    assert_eq!(identity, identity_of(FIRST));
    assert_eq!(identity.change_history(), &ChangeHistory(vec![first_change(FIRST)]));
}

#[test]
fn rotated_identity_keeps_its_identifier() {
    let identity = create_identity(&ModelVault, FIRST).unwrap();
    let rotated = rotate_key(&ModelVault, &identity, FIRST, SECOND).unwrap();
    assert_eq!(rotated.identifier(), identity.identifier());
    assert_eq!(rotated.current_key(), &ModelVault.verifying_key(SECOND));
    assert_eq!(
        rotated.change_history(),
        &ChangeHistory(vec![first_change(FIRST), rotation(&first_change(FIRST), FIRST, SECOND)])
    );
    let again = rotate_key(&ModelVault, &rotated, SECOND, AUTHORITY).unwrap();
    assert_eq!(again.change_history().0.len(), 3);
    // The key that was replaced cannot rotate any more.
    assert_eq!(
        rotate_key(&ModelVault, &rotated, FIRST, AUTHORITY),
        Err(HandshakeError::InvalidSignature)
    );
}

#[test]
fn update_must_go_on_from_what_is_known() {
    let known = create_identity(&ModelVault, FIRST).unwrap();
    let rotated = rotate_key(&ModelVault, &known, FIRST, SECOND).unwrap();
    assert_eq!(
        verify_update(&ModelVault, &known, rotated.change_history().clone()),
        Ok(rotated.clone())
    );
    assert_eq!(verify_update(&ModelVault, &known, known.change_history().clone()), Ok(known.clone()));
    // A shorter history, or the history of someone else, is no update.
    assert_eq!(
        verify_update(&ModelVault, &rotated, known.change_history().clone()),
        Err(HandshakeError::BrokenChain)
    );
    assert_eq!(
        verify_update(&ModelVault, &known, identity_of(SECOND).change_history().clone()),
        Err(HandshakeError::BrokenChain)
    );
    assert_eq!(
        verify_update(&ModelVault, &known, ChangeHistory(Vec::new())),
        Err(HandshakeError::EmptyHistory)
    );
    assert!(rotated.change_history().extends(known.change_history()));
    assert!(!known.change_history().extends(rotated.change_history()));
}

#[test]
fn issued_credential_verifies_until_it_expires() {
    let authority = create_identity(&ModelVault, AUTHORITY).unwrap();
    let subject = create_identity(&ModelVault, FIRST).unwrap();
    let attributes = vec![Attribute { name: b"role".to_vec(), value: b"member".to_vec() }];
    let issued = issue_credential(
        &ModelVault,
        authority.identifier(),
        AUTHORITY,
        subject.identifier(),
        attributes.clone(),
        NOW,
        MAX_CREDENTIAL_VALIDITY,
    );
    assert_eq!(issued.created_at, NOW);
    assert_eq!(issued.expires_at, Some(NOW + 30 * 24 * 3600));
    assert_eq!(issued.subject, *subject.identifier());
    assert_eq!(issued.issuer, *authority.identifier());
    let context = Some(TrustContext::new(vec![authority.clone()]));
    let check = |now: u64| verify_credential(&ModelVault, &issued, subject.identifier(), &context, now);
    assert_eq!(check(NOW), Ok(attributes.clone()));
    assert_eq!(check(NOW + MAX_CREDENTIAL_VALIDITY), Ok(attributes));
    assert_eq!(check(NOW + MAX_CREDENTIAL_VALIDITY + 1), Err(HandshakeError::Expired));
    // A validity that runs past the end of time ends with it.
    let forever = issue_credential(
        &ModelVault,
        authority.identifier(),
        AUTHORITY,
        subject.identifier(),
        Vec::new(),
        u64::MAX - 5,
        10,
    );
    assert_eq!(forever.expires_at, Some(u64::MAX));
    // Once the authority has rotated its key, the old key signs in vain.
    let rotated = rotate_key(&ModelVault, &authority, AUTHORITY, SECOND).unwrap();
    let context = Some(TrustContext::new(vec![rotated]));
    assert_eq!(
        verify_credential(&ModelVault, &issued, subject.identifier(), &context, NOW),
        Err(HandshakeError::InvalidSignature)
    );
}
