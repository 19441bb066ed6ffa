//! Credentials: attributes that an authority attests of a subject, and the
//! trust context that says which authorities count.

use vstd::prelude::*;
use crate::codec::{
    encode_bytes, encode_list, encode_option_u64, encode_u64, fits, lemma_bytes_roundtrip,
    lemma_list_fits, lemma_list_roundtrip, lemma_option_u64_roundtrip, lemma_u64_roundtrip,
    list_fits, parse_bytes, parse_list, parse_option_u64, parse_u64, spec_encode_bytes,
    spec_encode_list, spec_encode_option_u64, spec_encode_u64, spec_parse_bytes,
    spec_parse_list, spec_parse_option_u64, spec_parse_u64, views, Wire,
};
use crate::error::HandshakeError;
use crate::identity::{clone_bytes, spec_current_key, Identifier, Identity, IdentityView};
use crate::vault::{vault_is_sound, XXVault};

verus! {

/// A named value that a credential attests.
#[derive(Debug, PartialEq, Eq)]
pub struct Attribute {
    pub name: Vec<u8>,
    pub value: Vec<u8>,
}

pub struct AttributeView {
    pub name: Seq<u8>,
    pub value: Seq<u8>,
}

impl View for Attribute {
    type V = AttributeView;

    open spec fn view(&self) -> AttributeView {
        AttributeView { name: self.name@, value: self.value@ }
    }
}

impl Clone for Attribute {
    fn clone(&self) -> (copy: Self)
        ensures
            copy@ == self@,
    {
        Attribute { name: clone_bytes(&self.name), value: clone_bytes(&self.value) }
    }
}

impl Wire for Attribute {
    open spec fn spec_fits(value: AttributeView) -> bool {
        fits(value.name.len()) && fits(value.value.len())
    }

    open spec fn spec_encode(value: AttributeView) -> Seq<u8> {
        spec_encode_bytes(value.name) + spec_encode_bytes(value.value)
    }

    open spec fn spec_parse(input: Seq<u8>) -> Option<(AttributeView, Seq<u8>)> {
        match spec_parse_bytes(input) {
            None => None,
            Some((name, rest1)) => match spec_parse_bytes(rest1) {
                None => None,
                Some((value, rest2)) => Some((AttributeView { name, value }, rest2)),
            },
        }
    }

    proof fn lemma_roundtrip(value: AttributeView, tail: Seq<u8>) {
        let part2 = spec_encode_bytes(value.value) + tail;
        assert(Self::spec_encode(value) + tail =~= spec_encode_bytes(value.name) + part2);
        lemma_bytes_roundtrip(value.name, part2);
        lemma_bytes_roundtrip(value.value, tail);
    }

    proof fn lemma_fits(&self) {
        assert(self.name@.len() == self.name.len());
        assert(self.value@.len() == self.value.len());
    }

    fn encode(&self, out: &mut Vec<u8>) {
        let ghost start = out@;
        encode_bytes(self.name.as_slice(), out);
        encode_bytes(self.value.as_slice(), out);
        assert(out@ =~= start + Self::spec_encode(self@));
    }

    fn parse(data: &[u8], pos: usize) -> (r: Option<(Self, usize)>) {
        let (name, pos1) = match parse_bytes(data, pos) {
            None => { return None; },
            Some(found) => found,
        };
        let (value, pos2) = match parse_bytes(data, pos1) {
            None => { return None; },
            Some(found) => found,
        };
        Some((Attribute { name, value }, pos2))
    }
}

/// Copies a list of attributes.
pub fn clone_attributes(attributes: &Vec<Attribute>) -> (copy: Vec<Attribute>)
    ensures
        views(copy@) == views(attributes@),
{
    let mut copy: Vec<Attribute> = Vec::new();
    let mut i: usize = 0;
    while i < attributes.len()
        invariant
            0 <= i <= attributes@.len(),
            views(copy@) == views(attributes@).take(i as int),
        decreases attributes@.len() - i,
    {
        let ghost copied = views(copy@);
        let attribute = attributes[i].clone();
        copy.push(attribute);
        assert(views(copy@) =~= copied.push(attribute@));
        assert(views(attributes@).take(i + 1) =~= views(attributes@).take(i as int).push(
            views(attributes@)[i as int],
        ));
        i += 1;
    }
    assert(views(attributes@).take(attributes@.len() as int) =~= views(attributes@));
    copy
}

/// A signed attestation by `issuer` that `subject` has `attributes`.
#[derive(Debug, PartialEq, Eq)]
pub struct Credential {
    pub subject: Identifier,
    pub issuer: Identifier,
    pub attributes: Vec<Attribute>,
    /// When the credential was issued, in seconds.
    pub created_at: u64,
    /// The last second at which the credential holds; `None` where it does
    /// not expire.
    pub expires_at: Option<u64>,
    /// Signature of everything above under the issuer's current key.
    pub signature: Vec<u8>,
}

pub struct CredentialView {
    pub subject: Seq<u8>,
    pub issuer: Seq<u8>,
    pub attributes: Seq<AttributeView>,
    pub created_at: u64,
    pub expires_at: Option<u64>,
    pub signature: Seq<u8>,
}

impl View for Credential {
    type V = CredentialView;

    open spec fn view(&self) -> CredentialView {
        CredentialView {
            subject: self.subject@,
            issuer: self.issuer@,
            attributes: views(self.attributes@),
            created_at: self.created_at,
            expires_at: self.expires_at,
            signature: self.signature@,
        }
    }
}

impl Clone for Credential {
    fn clone(&self) -> (copy: Self)
        ensures
            copy@ == self@,
    {
        Credential {
            subject: self.subject.clone(),
            issuer: self.issuer.clone(),
            attributes: clone_attributes(&self.attributes),
            created_at: self.created_at,
            expires_at: self.expires_at,
            signature: clone_bytes(&self.signature),
        }
    }
}

/// The bytes of a credential that its signature covers.
pub open spec fn spec_credential_data(credential: CredentialView) -> Seq<u8> {
    spec_encode_bytes(credential.subject) + spec_encode_bytes(credential.issuer)
        + spec_encode_list::<Attribute>(credential.attributes) + spec_encode_u64(
        credential.created_at,
    ) + spec_encode_option_u64(credential.expires_at)
}

impl Credential {
    /// The bytes that the issuer signs.
    pub fn signed_data(&self) -> (data: Vec<u8>)
        ensures
            data@ == spec_credential_data(self@),
    {
        let mut data: Vec<u8> = Vec::new();
        encode_bytes(self.subject.0.as_slice(), &mut data);
        encode_bytes(self.issuer.0.as_slice(), &mut data);
        encode_list(&self.attributes, &mut data);
        encode_u64(self.created_at, &mut data);
        encode_option_u64(self.expires_at, &mut data);
        assert(data@ =~= spec_credential_data(self@));
        data
    }
}

impl Wire for Credential {
    open spec fn spec_fits(value: CredentialView) -> bool {
        &&& fits(value.subject.len())
        &&& fits(value.issuer.len())
        &&& list_fits::<Attribute>(value.attributes)
        &&& fits(value.signature.len())
    }

    open spec fn spec_encode(value: CredentialView) -> Seq<u8> {
        spec_credential_data(value) + spec_encode_bytes(value.signature)
    }

    open spec fn spec_parse(input: Seq<u8>) -> Option<(CredentialView, Seq<u8>)> {
        match spec_parse_bytes(input) {
            None => None,
            Some((subject, rest1)) => match spec_parse_bytes(rest1) {
                None => None,
                Some((issuer, rest2)) => match spec_parse_list::<Attribute>(rest2) {
                    None => None,
                    Some((attributes, rest3)) => match spec_parse_u64(rest3) {
                        None => None,
                        Some((created_at, rest4)) => match spec_parse_option_u64(rest4) {
                            None => None,
                            Some((expires_at, rest5)) => match spec_parse_bytes(rest5) {
                                None => None,
                                Some((signature, rest6)) => Some(
                                    (
                                        CredentialView {
                                            subject,
                                            issuer,
                                            attributes,
                                            created_at,
                                            expires_at,
                                            signature,
                                        },
                                        rest6,
                                    ),
                                ),
                            },
                        },
                    },
                },
            },
        }
    }

    proof fn lemma_roundtrip(value: CredentialView, tail: Seq<u8>) {
        let part6 = spec_encode_bytes(value.signature) + tail;
        let part5 = spec_encode_option_u64(value.expires_at) + part6;
        let part4 = spec_encode_u64(value.created_at) + part5;
        let part3 = spec_encode_list::<Attribute>(value.attributes) + part4;
        let part2 = spec_encode_bytes(value.issuer) + part3;
        assert(Self::spec_encode(value) + tail =~= spec_encode_bytes(value.subject) + part2);
        lemma_bytes_roundtrip(value.subject, part2);
        lemma_bytes_roundtrip(value.issuer, part3);
        lemma_list_roundtrip::<Attribute>(value.attributes, part4);
        lemma_u64_roundtrip(value.created_at, part5);
        lemma_option_u64_roundtrip(value.expires_at, part6);
        lemma_bytes_roundtrip(value.signature, tail);
    }

    proof fn lemma_fits(&self) {
        assert(self.subject@.len() == self.subject.0.len());
        assert(self.issuer@.len() == self.issuer.0.len());
        assert(self.signature@.len() == self.signature.len());
        lemma_list_fits::<Attribute>(&self.attributes);
    }

    fn encode(&self, out: &mut Vec<u8>) {
        let ghost start = out@;
        encode_bytes(self.subject.0.as_slice(), out);
        encode_bytes(self.issuer.0.as_slice(), out);
        encode_list(&self.attributes, out);
        encode_u64(self.created_at, out);
        encode_option_u64(self.expires_at, out);
        encode_bytes(self.signature.as_slice(), out);
        assert(out@ =~= start + Self::spec_encode(self@));
    }

    fn parse(data: &[u8], pos: usize) -> (r: Option<(Self, usize)>) {
        let (subject, pos1) = match parse_bytes(data, pos) {
            None => { return None; },
            Some(found) => found,
        };
        let (issuer, pos2) = match parse_bytes(data, pos1) {
            None => { return None; },
            Some(found) => found,
        };
        let (attributes, pos3) = match parse_list::<Attribute>(data, pos2) {
            None => { return None; },
            Some(found) => found,
        };
        let (created_at, pos4) = match parse_u64(data, pos3) {
            None => { return None; },
            Some(found) => found,
        };
        let (expires_at, pos5) = match parse_option_u64(data, pos4) {
            None => { return None; },
            Some(found) => found,
        };
        let (signature, pos6) = match parse_bytes(data, pos5) {
            None => { return None; },
            Some(found) => found,
        };
        Some(
            (
                Credential {
                    subject: Identifier(subject),
                    issuer: Identifier(issuer),
                    attributes,
                    created_at,
                    expires_at,
                    signature,
                },
                pos6,
            ),
        )
    }
}

/// Copies a list of credentials.
pub fn clone_credentials(credentials: &Vec<Credential>) -> (copy: Vec<Credential>)
    ensures
        views(copy@) == views(credentials@),
{
    let mut copy: Vec<Credential> = Vec::new();
    let mut i: usize = 0;
    while i < credentials.len()
        invariant
            0 <= i <= credentials@.len(),
            views(copy@) == views(credentials@).take(i as int),
        decreases credentials@.len() - i,
    {
        let ghost copied = views(copy@);
        let credential = credentials[i].clone();
        copy.push(credential);
        assert(views(copy@) =~= copied.push(credential@));
        assert(views(credentials@).take(i + 1) =~= views(credentials@).take(i as int).push(
            views(credentials@)[i as int],
        ));
        i += 1;
    }
    assert(views(credentials@).take(credentials@.len() as int) =~= views(credentials@));
    copy
}

/// The authorities whose credentials are accepted on this side of a channel.
#[derive(Debug)]
pub struct TrustContext {
    pub authorities: Vec<Identity>,
}

impl View for TrustContext {
    type V = Seq<IdentityView>;

    open spec fn view(&self) -> Seq<IdentityView> {
        views(self.authorities@)
    }
}

/// View of an optional trust context.
pub open spec fn context_view(context: Option<TrustContext>) -> Option<Seq<IdentityView>> {
    match context {
        Some(c) => Some(c@),
        None => None,
    }
}

/// The first of `authorities`, from `from` on, that is named `issuer`.
pub open spec fn spec_find_authority(
    authorities: Seq<IdentityView>,
    issuer: Seq<u8>,
    from: int,
) -> Option<IdentityView>
    decreases authorities.len() - from,
{
    if from < 0 || from >= authorities.len() {
        None
    } else if authorities[from].identifier == issuer {
        Some(authorities[from])
    } else {
        spec_find_authority(authorities, issuer, from + 1)
    }
}

impl TrustContext {
    pub fn new(authorities: Vec<Identity>) -> (context: Self)
        ensures
            context@ == views(authorities@),
    {
        TrustContext { authorities }
    }

    /// The authority named `issuer`, if this context trusts one.
    pub fn authority(&self, issuer: &Identifier) -> (found: Option<&Identity>)
        ensures
            match found {
                Some(identity) => spec_find_authority(self@, issuer@, 0) == Some(identity@),
                None => spec_find_authority(self@, issuer@, 0) is None,
            },
    {
        let mut i: usize = 0;
        while i < self.authorities.len()
            invariant
                0 <= i <= self.authorities@.len(),
                spec_find_authority(self@, issuer@, 0) == spec_find_authority(
                    self@,
                    issuer@,
                    i as int,
                ),
            decreases self.authorities@.len() - i,
        {
            if self.authorities[i].identifier().same_as(issuer) {
                return Some(&self.authorities[i]);
            }
            i += 1;
        }
        None
    }
}

/// Whether a credential has expired at `now`.
pub open spec fn spec_expired(credential: CredentialView, now: u64) -> bool {
    match credential.expires_at {
        Some(last) => last < now,
        None => false,
    }
}

/// The outcome of verifying one credential presented by `subject`.
///
/// The subject is checked first, then the expiry, then the issuer, then the
/// signature.
pub open spec fn spec_verify_credential<V: XXVault>(
    vault: &V,
    credential: CredentialView,
    subject: Seq<u8>,
    context: Option<Seq<IdentityView>>,
    now: u64,
) -> Result<Seq<AttributeView>, HandshakeError> {
    if credential.subject != subject {
        Err(HandshakeError::SubjectMismatch)
    } else if spec_expired(credential, now) {
        Err(HandshakeError::Expired)
    } else {
        match context {
            None => Err(HandshakeError::UnknownIssuer),
            Some(authorities) => match spec_find_authority(authorities, credential.issuer, 0) {
                None => Err(HandshakeError::UnknownIssuer),
                Some(authority) => if vault.spec_verify(
                    spec_current_key(authority.history),
                    spec_credential_data(credential),
                    credential.signature,
                ) {
                    Ok(credential.attributes)
                } else {
                    Err(HandshakeError::InvalidSignature)
                },
            },
        }
    }
}

/// Verifies a credential that the peer `subject` presented at time `now`.
///
/// Returns the attested attributes, or: `SubjectMismatch` where the
/// credential was issued for someone else, whatever else holds of it;
/// `Expired` where its last second lies before `now`; `UnknownIssuer` where
/// there is no trust context or it does not hold the issuer; and
/// `InvalidSignature` where the issuer's current key did not sign it.
pub fn verify_credential<V: XXVault>(
    vault: &V,
    credential: &Credential,
    subject: &Identifier,
    context: &Option<TrustContext>,
    now: u64,
) -> (r: Result<Vec<Attribute>, HandshakeError>)
    ensures
        match r {
            Ok(attributes) => spec_verify_credential(
                vault,
                credential@,
                subject@,
                context_view(*context),
                now,
            ) == Ok::<Seq<AttributeView>, HandshakeError>(views(attributes@)),
            Err(error) => spec_verify_credential(
                vault,
                credential@,
                subject@,
                context_view(*context),
                now,
            ) == Err::<Seq<AttributeView>, HandshakeError>(error),
        },
{
    if !credential.subject.same_as(subject) {
        return Err(HandshakeError::SubjectMismatch);
    }
    match credential.expires_at {
        Some(last) => {
            if last < now {
                return Err(HandshakeError::Expired);
            }
        },
        None => {},
    }
    let authority = match context {
        None => {
            return Err(HandshakeError::UnknownIssuer);
        },
        Some(trusted) => match trusted.authority(&credential.issuer) {
            None => {
                return Err(HandshakeError::UnknownIssuer);
            },
            Some(identity) => identity,
        },
    };
    let data = credential.signed_data();
    if !vault.verify(
        authority.current_key().as_slice(),
        data.as_slice(),
        credential.signature.as_slice(),
    ) {
        return Err(HandshakeError::InvalidSignature);
    }
    Ok(clone_attributes(&credential.attributes))
}

/// The longest time, in seconds, for which a credential is issued.
pub const MAX_CREDENTIAL_VALIDITY: u64 = 2592000;

/// The last second of a credential created at `created_at` and valid for
/// `validity` seconds; where that lies beyond the last second that can be
/// written, that last second.
pub open spec fn spec_expiry(created_at: u64, validity: u64) -> u64 {
    if created_at + validity <= u64::MAX {
        (created_at + validity) as u64
    } else {
        u64::MAX
    }
}

/// The credential that the holder of `signing_key` issues.
pub open spec fn spec_issue<V: XXVault>(
    vault: &V,
    signing_key: Seq<u8>,
    issuer: Seq<u8>,
    subject: Seq<u8>,
    attributes: Seq<AttributeView>,
    created_at: u64,
    expires_at: Option<u64>,
) -> CredentialView {
    let unsigned = CredentialView {
        subject,
        issuer,
        attributes,
        created_at,
        expires_at,
        signature: Seq::empty(),
    };
    CredentialView {
        signature: vault.spec_sign(signing_key, spec_credential_data(unsigned)),
        ..unsigned
    }
}

/// Issues a credential: `issuer`, whose current signing key is
/// `signing_key`, attests `attributes` of `subject` from `created_at` on,
/// for `validity` seconds.
pub fn issue_credential<V: XXVault>(
    vault: &V,
    issuer: &Identifier,
    signing_key: &[u8],
    subject: &Identifier,
    attributes: Vec<Attribute>,
    created_at: u64,
    validity: u64,
) -> (credential: Credential)
    ensures
        credential@ == spec_issue(
            vault,
            signing_key@,
            issuer@,
            subject@,
            views(attributes@),
            created_at,
            Some(spec_expiry(created_at, validity)),
        ),
{
    let expires_at = if validity <= u64::MAX - created_at {
        created_at + validity
    } else {
        u64::MAX
    };
    let mut credential = Credential {
        subject: subject.clone(),
        issuer: issuer.clone(),
        attributes,
        created_at,
        expires_at: Some(expires_at),
        signature: Vec::new(),
    };
    let data = credential.signed_data();
    credential.signature = vault.sign(signing_key, data.as_slice());
    credential
}

/// A credential verifies for its subject until it expires, wherever the
/// trust context holds its issuer with the key that signed it.
pub proof fn lemma_issued_credential_verifies<V: XXVault>(
    vault: &V,
    signing_key: Seq<u8>,
    issuer: Seq<u8>,
    subject: Seq<u8>,
    attributes: Seq<AttributeView>,
    created_at: u64,
    expires_at: Option<u64>,
    authorities: Seq<IdentityView>,
    now: u64,
)
    requires
        vault_is_sound(vault),
        spec_find_authority(authorities, issuer, 0) matches Some(authority) && spec_current_key(
            authority.history,
        ) == vault.spec_verifying_key(signing_key),
        expires_at matches Some(last) ==> now <= last,
    ensures
        spec_verify_credential(
            vault,
            spec_issue(vault, signing_key, issuer, subject, attributes, created_at, expires_at),
            subject,
            Some(authorities),
            now,
        ) == Ok::<Seq<AttributeView>, HandshakeError>(attributes),
{
}

/// The error of the first credential among the first `count` that does not
/// verify, if there is one.
pub open spec fn spec_first_credential_error<V: XXVault>(
    vault: &V,
    credentials: Seq<CredentialView>,
    subject: Seq<u8>,
    context: Option<Seq<IdentityView>>,
    now: u64,
    count: nat,
) -> Option<HandshakeError>
    decreases count,
{
    if count == 0 {
        None
    } else {
        match spec_first_credential_error(
            vault,
            credentials,
            subject,
            context,
            now,
            (count - 1) as nat,
        ) {
            Some(error) => Some(error),
            None => match spec_verify_credential(
                vault,
                credentials[count - 1],
                subject,
                context,
                now,
            ) {
                Ok(_) => None,
                Err(error) => Some(error),
            },
        }
    }
}

/// Whether one of `credentials` was issued for another identity than
/// `subject`.
pub open spec fn spec_any_foreign(credentials: Seq<CredentialView>, subject: Seq<u8>) -> bool {
    exists|i: int| 0 <= i < credentials.len() && (#[trigger] credentials[i]).subject != subject
}

/// The verdict on the credentials that `subject` presented: `None` where all
/// of them verify. A credential issued for someone else makes the verdict
/// `SubjectMismatch` wherever it stands among them; otherwise the verdict is
/// the error of the first credential that does not verify.
pub open spec fn spec_credentials_verdict<V: XXVault>(
    vault: &V,
    credentials: Seq<CredentialView>,
    subject: Seq<u8>,
    context: Option<Seq<IdentityView>>,
    now: u64,
) -> Option<HandshakeError> {
    if spec_any_foreign(credentials, subject) {
        Some(HandshakeError::SubjectMismatch)
    } else {
        spec_first_credential_error(vault, credentials, subject, context, now, credentials.len())
    }
}

/// Whether one of `credentials` was issued for another identity than
/// `subject`.
pub fn any_foreign(credentials: &Vec<Credential>, subject: &Identifier) -> (r: bool)
    ensures
        r == spec_any_foreign(views(credentials@), subject@),
{
    let mut i: usize = 0;
    while i < credentials.len()
        invariant
            0 <= i <= credentials@.len(),
            forall|j: int| 0 <= j < i ==> (#[trigger] views(credentials@)[j]).subject == subject@,
        decreases credentials@.len() - i,
    {
        if !credentials[i].subject.same_as(subject) {
            assert(views(credentials@)[i as int].subject != subject@);
            return true;
        }
        i += 1;
    }
    false
}

/// Verifies every credential that a peer presented. One failure fails them
/// all: no credential is trusted unless all of them verify.
pub fn verify_credentials<V: XXVault>(
    vault: &V,
    credentials: &Vec<Credential>,
    subject: &Identifier,
    context: &Option<TrustContext>,
    now: u64,
) -> (r: Result<(), HandshakeError>)
    ensures
        match r {
            Ok(_) => spec_credentials_verdict(
                vault,
                views(credentials@),
                subject@,
                context_view(*context),
                now,
            ) is None,
            Err(error) => spec_credentials_verdict(
                vault,
                views(credentials@),
                subject@,
                context_view(*context),
                now,
            ) == Some(error),
        },
{
    if any_foreign(credentials, subject) {
        return Err(HandshakeError::SubjectMismatch);
    }
    let mut i: usize = 0;
    while i < credentials.len()
        invariant
            0 <= i <= credentials@.len(),
            !spec_any_foreign(views(credentials@), subject@),
            spec_first_credential_error(
                vault,
                views(credentials@),
                subject@,
                context_view(*context),
                now,
                i as nat,
            ) is None,
        decreases credentials@.len() - i,
    {
        match verify_credential(vault, &credentials[i], subject, context, now) {
            Err(error) => {
                proof {
                    lemma_first_credential_error_stays(
                        vault,
                        views(credentials@),
                        subject@,
                        context_view(*context),
                        now,
                        (i + 1) as nat,
                        credentials@.len(),
                    );
                }
                return Err(error);
            },
            Ok(_) => {},
        }
        i += 1;
    }
    Ok(())
}

/// Once a credential has failed, the credentials after it do not alter the
/// verdict.
pub proof fn lemma_first_credential_error_stays<V: XXVault>(
    vault: &V,
    credentials: Seq<CredentialView>,
    subject: Seq<u8>,
    context: Option<Seq<IdentityView>>,
    now: u64,
    count: nat,
    longer: nat,
)
    requires
        count <= longer,
        spec_first_credential_error(vault, credentials, subject, context, now, count) is Some,
    ensures
        spec_first_credential_error(vault, credentials, subject, context, now, longer)
            == spec_first_credential_error(vault, credentials, subject, context, now, count),
    decreases longer,
{
    if count < longer {
        lemma_first_credential_error_stays(
            vault,
            credentials,
            subject,
            context,
            now,
            count,
            (longer - 1) as nat,
        );
    }
}

/// No credential among the first `count` fails exactly when each of them
/// verifies on its own.
pub proof fn lemma_no_error_iff_each_verifies<V: XXVault>(
    vault: &V,
    credentials: Seq<CredentialView>,
    subject: Seq<u8>,
    context: Option<Seq<IdentityView>>,
    now: u64,
    count: nat,
)
    requires
        count <= credentials.len(),
    ensures
        spec_first_credential_error(vault, credentials, subject, context, now, count) is None
            <==> forall|i: int|
            0 <= i < count ==> spec_verify_credential(
                vault,
                #[trigger] credentials[i],
                subject,
                context,
                now,
            ) is Ok,
    decreases count,
{
    if count > 0 {
        lemma_no_error_iff_each_verifies(
            vault,
            credentials,
            subject,
            context,
            now,
            (count - 1) as nat,
        );
    }
}

/// The credentials of a peer are accepted exactly when each of them
/// verifies on its own: verification is independent per credential, and the
/// order in which they are presented does not matter to acceptance.
pub proof fn lemma_credentials_accepted_iff_each_verifies<V: XXVault>(
    vault: &V,
    credentials: Seq<CredentialView>,
    subject: Seq<u8>,
    context: Option<Seq<IdentityView>>,
    now: u64,
)
    ensures
        spec_credentials_verdict(vault, credentials, subject, context, now) is None <==> forall|
            i: int,
        |
            0 <= i < credentials.len() ==> spec_verify_credential(
                vault,
                #[trigger] credentials[i],
                subject,
                context,
                now,
            ) is Ok,
{
    lemma_no_error_iff_each_verifies(
        vault,
        credentials,
        subject,
        context,
        now,
        credentials.len(),
    );
    if spec_any_foreign(credentials, subject) {
        let i = choose|i: int|
            0 <= i < credentials.len() && (#[trigger] credentials[i]).subject != subject;
        assert(spec_verify_credential(vault, credentials[i], subject, context, now) is Err);
    }
}

/// A credential issued for another identity than the peer makes the verdict
/// on the peer's credentials a subject mismatch, whether or not its
/// signature is valid and whatever else is presented with it.
pub proof fn lemma_foreign_credential_decides<V: XXVault>(
    vault: &V,
    credentials: Seq<CredentialView>,
    index: int,
    subject: Seq<u8>,
    context: Option<Seq<IdentityView>>,
    now: u64,
)
    requires
        0 <= index < credentials.len(),
        credentials[index].subject != subject,
    ensures
        spec_credentials_verdict(vault, credentials, subject, context, now) == Some(
            HandshakeError::SubjectMismatch,
        ),
{
}

/// An expired credential among those presented makes the verdict an error,
/// whether or not its signature is valid.
pub proof fn lemma_expired_credential_fails_all<V: XXVault>(
    vault: &V,
    credentials: Seq<CredentialView>,
    index: int,
    subject: Seq<u8>,
    context: Option<Seq<IdentityView>>,
    now: u64,
)
    requires
        0 <= index < credentials.len(),
        spec_expired(credentials[index], now),
    ensures
        spec_credentials_verdict(vault, credentials, subject, context, now) is Some,
{
    lemma_credentials_accepted_iff_each_verifies(vault, credentials, subject, context, now);
    assert(spec_verify_credential(vault, credentials[index], subject, context, now) is Err);
}

/// A credential issued for another identity than the peer is refused as a
/// subject mismatch, whether or not its signature is valid.
pub proof fn lemma_foreign_credential_is_a_subject_mismatch<V: XXVault>(
    vault: &V,
    credential: CredentialView,
    subject: Seq<u8>,
    context: Option<Seq<IdentityView>>,
    now: u64,
)
    requires
        credential.subject != subject,
    ensures
        spec_verify_credential(vault, credential, subject, context, now) == Err::<
            Seq<AttributeView>,
            HandshakeError,
        >(HandshakeError::SubjectMismatch),
{
}

/// An expired credential is refused, whether or not its signature is valid.
pub proof fn lemma_expired_credential_is_refused<V: XXVault>(
    vault: &V,
    credential: CredentialView,
    subject: Seq<u8>,
    context: Option<Seq<IdentityView>>,
    now: u64,
)
    requires
        credential.expires_at matches Some(last) && last < now,
    ensures
        spec_verify_credential(vault, credential, subject, context, now) is Err,
        credential.subject == subject ==> spec_verify_credential(
            vault,
            credential,
            subject,
            context,
            now,
        ) == Err::<Seq<AttributeView>, HandshakeError>(HandshakeError::Expired),
{
}

} // verus!
