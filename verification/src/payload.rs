//! The authenticated payload that travels encrypted inside the second and
//! third message of a handshake: who the sender is, the proof that the
//! sender's static key belongs to that identity, and the sender's credentials.

use vstd::prelude::*;
use crate::codec::{
    encode_bytes, encode_list, fits, lemma_bytes_roundtrip, lemma_list_fits,
    lemma_list_roundtrip, list_fits, parse_bytes, parse_list, rest_of, spec_encode_bytes,
    spec_encode_list, spec_parse_bytes, spec_parse_list, views,
};
use crate::credential::{Credential, CredentialView};
use crate::identity::{Change, ChangeHistory, ChangeView};

verus! {

/// What one side of a handshake presents to the other.
#[derive(Debug, PartialEq, Eq)]
pub struct IdentityAndCredentials {
    /// The history that defines the sender's identity.
    pub change_history: ChangeHistory,
    /// Signature of the sender's static handshake key under the identity's
    /// current key.
    pub proof: Vec<u8>,
    /// The credentials that the sender presents, possibly none.
    pub credentials: Vec<Credential>,
}

pub struct IdentityAndCredentialsView {
    pub history: Seq<ChangeView>,
    pub proof: Seq<u8>,
    pub credentials: Seq<CredentialView>,
}

impl View for IdentityAndCredentials {
    type V = IdentityAndCredentialsView;

    open spec fn view(&self) -> IdentityAndCredentialsView {
        IdentityAndCredentialsView {
            history: self.change_history@,
            proof: self.proof@,
            credentials: views(self.credentials@),
        }
    }
}

/// Whether every length inside a payload can be written as a length prefix.
pub open spec fn payload_fits(payload: IdentityAndCredentialsView) -> bool {
    &&& list_fits::<Change>(payload.history)
    &&& fits(payload.proof.len())
    &&& list_fits::<Credential>(payload.credentials)
}

pub open spec fn spec_encode_payload(payload: IdentityAndCredentialsView) -> Seq<u8> {
    spec_encode_list::<Change>(payload.history) + spec_encode_bytes(payload.proof)
        + spec_encode_list::<Credential>(payload.credentials)
}

/// The payload that `input` encodes: `None` where `input` is cut short, holds
/// an unknown tag, or goes on after the payload.
pub open spec fn spec_decode_payload(input: Seq<u8>) -> Option<IdentityAndCredentialsView> {
    match spec_parse_list::<Change>(input) {
        None => None,
        Some((history, rest1)) => match spec_parse_bytes(rest1) {
            None => None,
            Some((proof, rest2)) => match spec_parse_list::<Credential>(rest2) {
                None => None,
                Some((credentials, rest3)) => if rest3.len() == 0 {
                    Some(IdentityAndCredentialsView { history, proof, credentials })
                } else {
                    None
                },
            },
        },
    }
}

/// Decoding undoes encoding.
pub proof fn lemma_payload_roundtrip(payload: IdentityAndCredentialsView)
    requires
        payload_fits(payload),
    ensures
        spec_decode_payload(spec_encode_payload(payload)) == Some(payload),
{
    let empty = Seq::<u8>::empty();
    let part3 = spec_encode_list::<Credential>(payload.credentials) + empty;
    let part2 = spec_encode_bytes(payload.proof) + part3;
    assert(spec_encode_payload(payload) =~= spec_encode_list::<Change>(payload.history) + part2);
    lemma_list_roundtrip::<Change>(payload.history, part2);
    lemma_bytes_roundtrip(payload.proof, part3);
    lemma_list_roundtrip::<Credential>(payload.credentials, empty);
}

impl IdentityAndCredentials {
    /// Every payload in memory can be encoded.
    pub proof fn lemma_fits(&self)
        ensures
            payload_fits(self@),
    {
        lemma_list_fits::<Change>(&self.change_history.0);
        lemma_list_fits::<Credential>(&self.credentials);
        assert(self.proof@.len() == self.proof.len());
    }

    pub fn encode(&self) -> (bytes: Vec<u8>)
        ensures
            bytes@ == spec_encode_payload(self@),
    {
        let mut bytes: Vec<u8> = Vec::new();
        encode_list(&self.change_history.0, &mut bytes);
        encode_bytes(self.proof.as_slice(), &mut bytes);
        encode_list(&self.credentials, &mut bytes);
        assert(bytes@ =~= spec_encode_payload(self@));
        bytes
    }

    pub fn decode(bytes: &[u8]) -> (r: Option<IdentityAndCredentials>)
        ensures
            match r {
                Some(payload) => spec_decode_payload(bytes@) == Some(payload@),
                None => spec_decode_payload(bytes@) is None,
            },
    {
        assert(rest_of(bytes@, 0) =~= bytes@);
        let (changes, pos1) = match parse_list::<Change>(bytes, 0) {
            None => { return None; },
            Some(found) => found,
        };
        let (proof, pos2) = match parse_bytes(bytes, pos1) {
            None => { return None; },
            Some(found) => found,
        };
        let (credentials, pos3) = match parse_list::<Credential>(bytes, pos2) {
            None => { return None; },
            Some(found) => found,
        };
        if pos3 != bytes.len() {
            return None;
        }
        Some(IdentityAndCredentials { change_history: ChangeHistory(changes), proof, credentials })
    }
}

} // verus!
