//! Identities and the signed change histories that define them.
//!
//! An identity is a principal whose key material evolves through an ordered,
//! append-only sequence of changes. Each change names a public key and is
//! signed by it; each change after the first also links to the change before
//! it and is signed by that change's key. An identity exists only as the
//! result of verifying such a history in full.

use vstd::prelude::*;
use crate::bytes::bytes_eq;
use crate::codec::{
    encode_bytes, encode_option, fits, lemma_bytes_roundtrip, lemma_option_roundtrip,
    option_fits, parse_bytes, parse_option, spec_encode_bytes, spec_encode_option,
    spec_parse_bytes, spec_parse_option, views, Wire,
};
use crate::error::HandshakeError;
use crate::vault::{vault_is_sound, XXVault};

verus! {

/// View of an optional byte string.
pub open spec fn option_view(value: Option<Vec<u8>>) -> Option<Seq<u8>> {
    match value {
        Some(data) => Some(data@),
        None => None,
    }
}

pub fn clone_bytes(data: &Vec<u8>) -> (copy: Vec<u8>)
    ensures
        copy@ == data@,
{
    data.clone()
}

pub fn clone_option(value: &Option<Vec<u8>>) -> (copy: Option<Vec<u8>>)
    ensures
        option_view(copy) == option_view(*value),
{
    match value {
        Some(data) => Some(clone_bytes(data)),
        None => None,
    }
}

/// The stable name of an identity: the digest of the first change of its
/// history.
#[derive(Debug, PartialEq, Eq)]
pub struct Identifier(pub Vec<u8>);

impl View for Identifier {
    type V = Seq<u8>;

    open spec fn view(&self) -> Seq<u8> {
        self.0@
    }
}

impl Clone for Identifier {
    fn clone(&self) -> (copy: Self)
        ensures
            copy@ == self@,
    {
        Identifier(clone_bytes(&self.0))
    }
}

impl Identifier {
    /// Whether two identifiers name the same identity.
    pub fn same_as(&self, other: &Identifier) -> (r: bool)
        ensures
            r == (self@ == other@),
    {
        bytes_eq(self.0.as_slice(), other.0.as_slice())
    }
}

/// One record of a change history: it establishes a key or rotates to it.
#[derive(Debug, PartialEq, Eq)]
pub struct Change {
    /// Digest of the change before this one; absent in the first change.
    pub previous_change: Option<Vec<u8>>,
    /// The key that this change makes current.
    pub public_key: Vec<u8>,
    /// Signature of this change under `public_key`.
    pub signature: Vec<u8>,
    /// Signature of this change under the key it replaces; absent in the
    /// first change.
    pub previous_signature: Option<Vec<u8>>,
}

pub struct ChangeView {
    pub previous_change: Option<Seq<u8>>,
    pub public_key: Seq<u8>,
    pub signature: Seq<u8>,
    pub previous_signature: Option<Seq<u8>>,
}

impl View for Change {
    type V = ChangeView;

    open spec fn view(&self) -> ChangeView {
        ChangeView {
            previous_change: option_view(self.previous_change),
            public_key: self.public_key@,
            signature: self.signature@,
            previous_signature: option_view(self.previous_signature),
        }
    }
}

impl Clone for Change {
    fn clone(&self) -> (copy: Self)
        ensures
            copy@ == self@,
    {
        Change {
            previous_change: clone_option(&self.previous_change),
            public_key: clone_bytes(&self.public_key),
            signature: clone_bytes(&self.signature),
            previous_signature: clone_option(&self.previous_signature),
        }
    }
}

/// The bytes of a change that its digest and its signatures cover.
pub open spec fn spec_change_data(change: ChangeView) -> Seq<u8> {
    spec_encode_option(change.previous_change) + spec_encode_bytes(change.public_key)
}

/// The digest by which a change is signed and by which its successor links
/// to it.
pub open spec fn spec_change_hash<V: XXVault>(vault: &V, change: ChangeView) -> Seq<u8> {
    vault.spec_hash(spec_change_data(change))
}

/// Whether two optional byte strings are the same.
pub fn same_option(a: &Option<Vec<u8>>, b: &Option<Vec<u8>>) -> (same: bool)
    ensures
        same == (option_view(*a) == option_view(*b)),
{
    match (a, b) {
        (Some(x), Some(y)) => bytes_eq(x.as_slice(), y.as_slice()),
        (None, None) => true,
        _ => false,
    }
}

impl Change {
    /// Whether two changes are the same record.
    pub fn same_as(&self, other: &Change) -> (same: bool)
        ensures
            same == (self@ == other@),
    {
        same_option(&self.previous_change, &other.previous_change) && bytes_eq(
            self.public_key.as_slice(),
            other.public_key.as_slice(),
        ) && bytes_eq(self.signature.as_slice(), other.signature.as_slice()) && same_option(
            &self.previous_signature,
            &other.previous_signature,
        )
    }

    /// The digest of this change.
    pub fn hash<V: XXVault>(&self, vault: &V) -> (digest: Vec<u8>)
        ensures
            digest@ == spec_change_hash(vault, self@),
    {
        let mut data: Vec<u8> = Vec::new();
        encode_option(&self.previous_change, &mut data);
        encode_bytes(self.public_key.as_slice(), &mut data);
        assert(data@ =~= spec_change_data(self@));
        vault.hash(data.as_slice())
    }
}

impl Wire for Change {
    open spec fn spec_fits(value: ChangeView) -> bool {
        &&& option_fits(value.previous_change)
        &&& fits(value.public_key.len())
        &&& fits(value.signature.len())
        &&& option_fits(value.previous_signature)
    }

    open spec fn spec_encode(value: ChangeView) -> Seq<u8> {
        spec_encode_option(value.previous_change) + spec_encode_bytes(value.public_key)
            + spec_encode_bytes(value.signature) + spec_encode_option(value.previous_signature)
    }

    open spec fn spec_parse(input: Seq<u8>) -> Option<(ChangeView, Seq<u8>)> {
        match spec_parse_option(input) {
            None => None,
            Some((previous_change, rest1)) => match spec_parse_bytes(rest1) {
                None => None,
                Some((public_key, rest2)) => match spec_parse_bytes(rest2) {
                    None => None,
                    Some((signature, rest3)) => match spec_parse_option(rest3) {
                        None => None,
                        Some((previous_signature, rest4)) => Some(
                            (
                                ChangeView {
                                    previous_change,
                                    public_key,
                                    signature,
                                    previous_signature,
                                },
                                rest4,
                            ),
                        ),
                    },
                },
            },
        }
    }

    proof fn lemma_roundtrip(value: ChangeView, tail: Seq<u8>) {
        let part4 = spec_encode_option(value.previous_signature) + tail;
        let part3 = spec_encode_bytes(value.signature) + part4;
        let part2 = spec_encode_bytes(value.public_key) + part3;
        assert(Self::spec_encode(value) + tail =~= spec_encode_option(value.previous_change)
            + part2);
        lemma_option_roundtrip(value.previous_change, part2);
        lemma_bytes_roundtrip(value.public_key, part3);
        lemma_bytes_roundtrip(value.signature, part4);
        lemma_option_roundtrip(value.previous_signature, tail);
    }

    proof fn lemma_fits(&self) {
        assert(self.public_key@.len() == self.public_key.len());
        assert(self.signature@.len() == self.signature.len());
        match self.previous_change {
            Some(data) => {
                assert(data@.len() == data.len());
            },
            None => {},
        }
        match self.previous_signature {
            Some(data) => {
                assert(data@.len() == data.len());
            },
            None => {},
        }
    }

    fn encode(&self, out: &mut Vec<u8>) {
        let ghost start = out@;
        encode_option(&self.previous_change, out);
        encode_bytes(self.public_key.as_slice(), out);
        encode_bytes(self.signature.as_slice(), out);
        encode_option(&self.previous_signature, out);
        assert(out@ =~= start + Self::spec_encode(self@));
    }

    fn parse(data: &[u8], pos: usize) -> (r: Option<(Self, usize)>) {
        let (previous_change, pos1) = match parse_option(data, pos) {
            None => { return None; },
            Some(found) => found,
        };
        let (public_key, pos2) = match parse_bytes(data, pos1) {
            None => { return None; },
            Some(found) => found,
        };
        let (signature, pos3) = match parse_bytes(data, pos2) {
            None => { return None; },
            Some(found) => found,
        };
        let (previous_signature, pos4) = match parse_option(data, pos3) {
            None => { return None; },
            Some(found) => found,
        };
        Some((Change { previous_change, public_key, signature, previous_signature }, pos4))
    }
}

/// An ordered sequence of changes, oldest first. Nothing is known of an
/// arbitrary history until it has been verified.
#[derive(Debug, PartialEq, Eq)]
pub struct ChangeHistory(pub Vec<Change>);

impl View for ChangeHistory {
    type V = Seq<ChangeView>;

    open spec fn view(&self) -> Seq<ChangeView> {
        views(self.0@)
    }
}

impl Clone for ChangeHistory {
    fn clone(&self) -> (copy: Self)
        ensures
            copy@ == self@,
    {
        let mut changes: Vec<Change> = Vec::new();
        let mut i: usize = 0;
        while i < self.0.len()
            invariant
                0 <= i <= self.0@.len(),
                views(changes@) == views(self.0@).take(i as int),
            decreases self.0@.len() - i,
        {
            let ghost copied = views(changes@);
            let change = self.0[i].clone();
            changes.push(change);
            assert(views(changes@) =~= copied.push(change@));
            assert(views(self.0@).take(i + 1) =~= views(self.0@).take(i as int).push(
                views(self.0@)[i as int],
            ));
            i += 1;
        }
        assert(views(self.0@).take(self.0@.len() as int) =~= views(self.0@));
        ChangeHistory(changes)
    }
}

/// Whether `later` goes on from `earlier`: it starts with every change of
/// `earlier`, in order.
pub open spec fn spec_extends(later: Seq<ChangeView>, earlier: Seq<ChangeView>) -> bool {
    earlier.len() <= later.len() && later.subrange(0, earlier.len() as int) == earlier
}

impl ChangeHistory {
    /// Whether this history goes on from `earlier`.
    pub fn extends(&self, earlier: &ChangeHistory) -> (r: bool)
        ensures
            r == spec_extends(self@, earlier@),
    {
        if earlier.0.len() > self.0.len() {
            return false;
        }
        let mut i: usize = 0;
        while i < earlier.0.len()
            invariant
                0 <= i <= earlier.0@.len() <= self.0@.len(),
                forall|j: int| 0 <= j < i ==> self@[j] == earlier@[j],
            decreases earlier.0@.len() - i,
        {
            if !self.0[i].same_as(&earlier.0[i]) {
                assert(self@.subrange(0, earlier@.len() as int)[i as int] != earlier@[i as int]);
                return false;
            }
            i += 1;
        }
        assert(self@.subrange(0, earlier@.len() as int) =~= earlier@);
        true
    }
}

/// What is wrong with the change at `index` given the change before it, if
/// anything. The link is checked before the signatures, the signature of the
/// replaced key before that of the new one.
pub open spec fn spec_check_change<V: XXVault>(
    vault: &V,
    history: Seq<ChangeView>,
    index: int,
) -> Option<HandshakeError> {
    let change = history[index];
    let digest = spec_change_hash(vault, change);
    if index == 0 {
        if change.previous_change is Some || change.previous_signature is Some {
            Some(HandshakeError::BrokenChain)
        } else if !vault.spec_verify(change.public_key, digest, change.signature) {
            Some(HandshakeError::InvalidSignature)
        } else {
            None
        }
    } else {
        let before = history[index - 1];
        if change.previous_change != Some(spec_change_hash(vault, before)) {
            Some(HandshakeError::BrokenChain)
        } else {
            match change.previous_signature {
                None => Some(HandshakeError::BrokenChain),
                Some(link) => if !vault.spec_verify(before.public_key, digest, link) {
                    Some(HandshakeError::InvalidSignature)
                } else if !vault.spec_verify(change.public_key, digest, change.signature) {
                    Some(HandshakeError::InvalidSignature)
                } else {
                    None
                },
            }
        }
    }
}

/// The error of the first change among the first `count` that does not
/// check, if there is one.
pub open spec fn spec_first_change_error<V: XXVault>(
    vault: &V,
    history: Seq<ChangeView>,
    count: nat,
) -> Option<HandshakeError>
    decreases count,
{
    if count == 0 {
        None
    } else {
        match spec_first_change_error(vault, history, (count - 1) as nat) {
            Some(error) => Some(error),
            None => spec_check_change(vault, history, count - 1),
        }
    }
}

/// The identifier that a history defines.
pub open spec fn spec_identifier_of<V: XXVault>(vault: &V, history: Seq<ChangeView>) -> Seq<u8> {
    spec_change_hash(vault, history[0])
}

pub struct IdentityView {
    pub identifier: Seq<u8>,
    pub history: Seq<ChangeView>,
}

/// The outcome of verifying a history: the identity it defines, or the error
/// of its first change that does not check.
pub open spec fn spec_verify_change_history<V: XXVault>(
    vault: &V,
    history: Seq<ChangeView>,
) -> Result<IdentityView, HandshakeError> {
    if history.len() == 0 {
        Err(HandshakeError::EmptyHistory)
    } else {
        match spec_first_change_error(vault, history, history.len()) {
            Some(error) => Err(error),
            None => Ok(IdentityView { identifier: spec_identifier_of(vault, history), history }),
        }
    }
}

/// A history verifies exactly when it is not empty and every one of its
/// changes checks: no history is accepted in part.
pub proof fn lemma_history_accepted_iff_all_changes_check<V: XXVault>(
    vault: &V,
    history: Seq<ChangeView>,
    count: nat,
)
    requires
        count <= history.len(),
    ensures
        spec_first_change_error(vault, history, count) is None <==> forall|i: int|
            0 <= i < count ==> spec_check_change(vault, history, i) is None,
    decreases count,
{
    if count > 0 {
        lemma_history_accepted_iff_all_changes_check(vault, history, (count - 1) as nat);
    }
}

/// A verified identity: an identifier with the history that defines it.
///
/// The only way to obtain one is `verify_change_history`, so the history of
/// an identity is never empty.
#[derive(Debug, PartialEq, Eq)]
pub struct Identity {
    identifier: Identifier,
    change_history: ChangeHistory,
}

impl View for Identity {
    type V = IdentityView;

    closed spec fn view(&self) -> IdentityView {
        IdentityView { identifier: self.identifier@, history: self.change_history@ }
    }
}

/// The key that the last change of a history made current.
pub open spec fn spec_current_key(history: Seq<ChangeView>) -> Seq<u8> {
    history.last().public_key
}

impl Identity {
    #[verifier::type_invariant]
    spec fn has_history(self) -> bool {
        self.change_history.0@.len() > 0
    }

    /// Whether this identity is what `vault` derives from its own history.
    pub open spec fn verified_by<V: XXVault>(self, vault: &V) -> bool {
        spec_verify_change_history(vault, self@.history) == Ok::<IdentityView, HandshakeError>(
            self@,
        )
    }

    pub fn identifier(&self) -> (identifier: &Identifier)
        ensures
            identifier@ == self@.identifier,
    {
        &self.identifier
    }

    pub fn change_history(&self) -> (history: &ChangeHistory)
        ensures
            history@ == self@.history,
            history@.len() > 0,
    {
        proof {
            use_type_invariant(self);
        }
        &self.change_history
    }

    /// The public key that currently speaks for this identity.
    pub fn current_key(&self) -> (key: &Vec<u8>)
        ensures
            key@ == spec_current_key(self@.history),
    {
        proof {
            use_type_invariant(self);
        }
        &self.change_history.0[self.change_history.0.len() - 1].public_key
    }
}

impl Clone for Identity {
    fn clone(&self) -> (copy: Self)
        ensures
            copy@ == self@,
    {
        proof {
            use_type_invariant(self);
        }
        let change_history = self.change_history.clone();
        assert(views(change_history.0@).len() == views(self.change_history.0@).len());
        Identity { identifier: self.identifier.clone(), change_history }
    }
}

/// Checks the change at `index` of `changes`, whose predecessor's digest is
/// `before` where there is one; returns the digest of the change.
fn check_change<V: XXVault>(vault: &V, changes: &Vec<Change>, index: usize, before: &Vec<u8>) -> (r:
    Result<Vec<u8>, HandshakeError>)
    requires
        index < changes@.len(),
        index > 0 ==> before@ == spec_change_hash(vault, views(changes@)[index - 1]),
    ensures
        match r {
            Ok(digest) => spec_check_change(vault, views(changes@), index as int) is None
                && digest@ == spec_change_hash(vault, views(changes@)[index as int]),
            Err(error) => spec_check_change(vault, views(changes@), index as int) == Some(error),
        },
{
    let change = &changes[index];
    let digest = change.hash(vault);
    if index == 0 {
        if change.previous_change.is_some() || change.previous_signature.is_some() {
            return Err(HandshakeError::BrokenChain);
        }
    } else {
        let linked = match &change.previous_change {
            None => false,
            Some(link) => bytes_eq(link.as_slice(), before.as_slice()),
        };
        if !linked {
            return Err(HandshakeError::BrokenChain);
        }
        let replaced = &changes[index - 1];
        match &change.previous_signature {
            None => {
                return Err(HandshakeError::BrokenChain);
            },
            Some(link) => {
                if !vault.verify(
                    replaced.public_key.as_slice(),
                    digest.as_slice(),
                    link.as_slice(),
                ) {
                    return Err(HandshakeError::InvalidSignature);
                }
            },
        }
    }
    if !vault.verify(
        change.public_key.as_slice(),
        digest.as_slice(),
        change.signature.as_slice(),
    ) {
        return Err(HandshakeError::InvalidSignature);
    }
    Ok(digest)
}

/// Verifies a change history from its first change forward and returns the
/// identity that it defines.
///
/// Fails with `EmptyHistory` on a history without changes, and otherwise with
/// the error of the first change that does not check: `BrokenChain` where the
/// change does not link to its predecessor, `InvalidSignature` where one of
/// its signatures does not verify.
pub fn verify_change_history<V: XXVault>(vault: &V, history: ChangeHistory) -> (r: Result<
    Identity,
    HandshakeError,
>)
    ensures
        match r {
            Ok(identity) => spec_verify_change_history(vault, history@) == Ok::<
                IdentityView,
                HandshakeError,
            >(identity@) && identity.verified_by(vault),
            Err(error) => spec_verify_change_history(vault, history@) == Err::<
                IdentityView,
                HandshakeError,
            >(error),
        },
{
    if history.0.len() == 0 {
        return Err(HandshakeError::EmptyHistory);
    }
    let mut first: Vec<u8> = Vec::new();
    let mut before: Vec<u8> = Vec::new();
    let mut i: usize = 0;
    while i < history.0.len()
        invariant
            0 <= i <= history.0@.len(),
            history.0@.len() > 0,
            spec_first_change_error(vault, history@, i as nat) is None,
            i > 0 ==> before@ == spec_change_hash(vault, history@[i - 1]),
            i > 0 ==> first@ == spec_identifier_of(vault, history@),
        decreases history.0@.len() - i,
    {
        match check_change(vault, &history.0, i, &before) {
            Err(error) => {
                proof {
                    lemma_first_error_stays(vault, history@, (i + 1) as nat, history@.len());
                }
                return Err(error);
            },
            Ok(digest) => {
                if i == 0 {
                    first = clone_bytes(&digest);
                }
                before = digest;
            },
        }
        i += 1;
    }
    Ok(Identity { identifier: Identifier(first), change_history: history })
}

/// Once a change has failed, the changes after it do not alter the verdict.
pub proof fn lemma_first_error_stays<V: XXVault>(
    vault: &V,
    history: Seq<ChangeView>,
    count: nat,
    longer: nat,
)
    requires
        count <= longer,
        spec_first_change_error(vault, history, count) is Some,
    ensures
        spec_first_change_error(vault, history, longer) == spec_first_change_error(
            vault,
            history,
            count,
        ),
    decreases longer,
{
    if count < longer {
        lemma_first_error_stays(vault, history, count, (longer - 1) as nat);
    }
}

/// The outcome of verifying a history that claims to update a known
/// identity: the history must verify, and it must go on from the history
/// that was accepted before.
pub open spec fn spec_verify_update<V: XXVault>(
    vault: &V,
    known: IdentityView,
    later: Seq<ChangeView>,
) -> Result<IdentityView, HandshakeError> {
    match spec_verify_change_history(vault, later) {
        Err(error) => Err(error),
        Ok(identity) => if spec_extends(later, known.history) {
            Ok(identity)
        } else {
            Err(HandshakeError::BrokenChain)
        },
    }
}

/// Verifies a history that claims to update the identity `known`. A history
/// that verifies on its own and does not go on from the known one is a
/// `BrokenChain`. An accepted update has the identifier of `known`.
pub fn verify_update<V: XXVault>(vault: &V, known: &Identity, later: ChangeHistory) -> (r: Result<
    Identity,
    HandshakeError,
>)
    ensures
        match r {
            Ok(identity) => spec_verify_update(vault, known@, later@) == Ok::<
                IdentityView,
                HandshakeError,
            >(identity@) && identity.verified_by(vault) && (known.verified_by(vault)
                ==> identity@.identifier == known@.identifier),
            Err(error) => spec_verify_update(vault, known@, later@) == Err::<
                IdentityView,
                HandshakeError,
            >(error),
        },
{
    let ghost history = later@;
    let identity = match verify_change_history(vault, later) {
        Err(error) => {
            return Err(error);
        },
        Ok(identity) => identity,
    };
    if !identity.change_history().extends(known.change_history()) {
        return Err(HandshakeError::BrokenChain);
    }
    proof {
        assert(history.subrange(0, known@.history.len() as int)[0] == history[0]);
    }
    Ok(identity)
}

/// The change that establishes the verifying key of `signing_key` as the
/// first key of a new identity.
pub open spec fn spec_first_change<V: XXVault>(vault: &V, signing_key: Seq<u8>) -> ChangeView {
    let unsigned = ChangeView {
        previous_change: None,
        public_key: vault.spec_verifying_key(signing_key),
        signature: Seq::empty(),
        previous_signature: None,
    };
    ChangeView {
        signature: vault.spec_sign(signing_key, spec_change_hash(vault, unsigned)),
        ..unsigned
    }
}

/// The change that rotates from the key of `before`, whose signing key is
/// `current_key`, to the verifying key of `new_key`.
pub open spec fn spec_rotation<V: XXVault>(
    vault: &V,
    before: ChangeView,
    current_key: Seq<u8>,
    new_key: Seq<u8>,
) -> ChangeView {
    let unsigned = ChangeView {
        previous_change: Some(spec_change_hash(vault, before)),
        public_key: vault.spec_verifying_key(new_key),
        signature: Seq::empty(),
        previous_signature: None,
    };
    let digest = spec_change_hash(vault, unsigned);
    ChangeView {
        signature: vault.spec_sign(new_key, digest),
        previous_signature: Some(vault.spec_sign(current_key, digest)),
        ..unsigned
    }
}

/// Creates an identity whose first key is the verifying key of
/// `signing_key`. With a sound vault this never fails.
pub fn create_identity<V: XXVault>(vault: &V, signing_key: &[u8]) -> (r: Result<
    Identity,
    HandshakeError,
>)
    ensures
        match r {
            Ok(identity) => identity.verified_by(vault) && identity@.history == seq![
                spec_first_change(vault, signing_key@),
            ],
            Err(error) => spec_verify_change_history(
                vault,
                seq![spec_first_change(vault, signing_key@)],
            ) == Err::<IdentityView, HandshakeError>(error),
        },
        vault_is_sound(vault) ==> r is Ok,
{
    let mut change = Change {
        previous_change: None,
        public_key: vault.verifying_key(signing_key),
        signature: Vec::new(),
        previous_signature: None,
    };
    let digest = change.hash(vault);
    change.signature = vault.sign(signing_key, digest.as_slice());
    let mut changes: Vec<Change> = Vec::new();
    changes.push(change);
    let history = ChangeHistory(changes);
    proof {
        let expected = seq![spec_first_change(vault, signing_key@)];
        assert(history@ =~= expected);
        assert(spec_first_change_error(vault, expected, 0) is None);
        assert(spec_first_change_error(vault, expected, 1) == spec_check_change(
            vault,
            expected,
            0,
        ));
    }
    verify_change_history(vault, history)
}

/// A change checks alike in a history and in every history that goes on
/// from it.
pub proof fn lemma_extension_keeps_checks<V: XXVault>(
    vault: &V,
    history: Seq<ChangeView>,
    longer: Seq<ChangeView>,
    count: nat,
)
    requires
        spec_extends(longer, history),
        count <= history.len(),
    ensures
        spec_first_change_error(vault, longer, count) == spec_first_change_error(
            vault,
            history,
            count,
        ),
    decreases count,
{
    if count > 0 {
        lemma_extension_keeps_checks(vault, history, longer, (count - 1) as nat);
        let kept = longer.subrange(0, history.len() as int);
        assert(kept[count - 1] == longer[count - 1]);
        if count > 1 {
            assert(kept[count - 2] == longer[count - 2]);
        }
    }
}

/// Rotates the key of `identity` from `current_key` to `new_key`: appends
/// the change that says so, signed by both, and verifies the longer
/// history. With a sound vault, and `current_key` the signing key of the
/// identity's current key, this never fails.
pub fn rotate_key<V: XXVault>(
    vault: &V,
    identity: &Identity,
    current_key: &[u8],
    new_key: &[u8],
) -> (r: Result<Identity, HandshakeError>)
    ensures
        match r {
            Ok(rotated) => rotated.verified_by(vault) && rotated@.history
                == identity@.history.push(
                spec_rotation(vault, identity@.history.last(), current_key@, new_key@),
            ) && (identity.verified_by(vault) ==> rotated@.identifier == identity@.identifier),
            Err(error) => spec_verify_change_history(
                vault,
                identity@.history.push(
                    spec_rotation(vault, identity@.history.last(), current_key@, new_key@),
                ),
            ) == Err::<IdentityView, HandshakeError>(error),
        },
        vault_is_sound(vault) && identity.verified_by(vault)
            && vault.spec_verifying_key(current_key@) == spec_current_key(identity@.history)
            ==> r is Ok,
{
    let history = identity.change_history();
    let before = &history.0[history.0.len() - 1];
    let mut change = Change {
        previous_change: Some(before.hash(vault)),
        public_key: vault.verifying_key(new_key),
        signature: Vec::new(),
        previous_signature: None,
    };
    let digest = change.hash(vault);
    change.signature = vault.sign(new_key, digest.as_slice());
    change.previous_signature = Some(vault.sign(current_key, digest.as_slice()));
    let mut longer = history.clone();
    let ghost copied = longer@;
    longer.0.push(change);
    proof {
        let old = identity@.history;
        let rotation = spec_rotation(vault, old.last(), current_key@, new_key@);
        let expected = old.push(rotation);
        assert(views(history.0@).last() == before@);
        assert(longer@ =~= copied.push(change@));
        assert(longer@ =~= expected);
        assert(expected.subrange(0, old.len() as int) =~= old);
        lemma_extension_keeps_checks(vault, old, expected, old.len());
        assert(expected[old.len() - 1] == old.last());
        assert(expected[0] == old[0]);
    }
    verify_change_history(vault, longer)
}

} // verus!
