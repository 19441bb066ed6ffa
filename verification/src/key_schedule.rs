//! The symmetric state of a handshake and the mixing rules that evolve it.
//!
//! Every key of this pattern encrypts exactly one part of one message, so
//! the cipher never needs a nonce other than the one the vault starts from.

use vstd::prelude::*;
use crate::bytes::append_bytes;
use crate::identity::clone_bytes;
use crate::vault::XXVault;

verus! {

/// The name that both ends hash into their transcript before anything else,
/// padded to the length of a digest.
pub open spec fn spec_protocol_name() -> Seq<u8> {
    seq![
        78u8, 111u8, 105u8, 115u8, 101u8, 95u8, 88u8, 88u8,
        95u8, 50u8, 53u8, 53u8, 49u8, 57u8, 95u8, 65u8,
        69u8, 83u8, 71u8, 67u8, 77u8, 95u8, 83u8, 72u8,
        65u8, 50u8, 53u8, 54u8, 0u8, 0u8, 0u8, 0u8,
    ]
}

pub fn protocol_name() -> (name: Vec<u8>)
    ensures
        name@ == spec_protocol_name(),
{
    let letters: [u8; 32] = [
        78u8, 111u8, 105u8, 115u8, 101u8, 95u8, 88u8, 88u8,
        95u8, 50u8, 53u8, 53u8, 49u8, 57u8, 95u8, 65u8,
        69u8, 83u8, 71u8, 67u8, 77u8, 95u8, 83u8, 72u8,
        65u8, 50u8, 53u8, 54u8, 0u8, 0u8, 0u8, 0u8,
    ];
    let mut name: Vec<u8> = Vec::new();
    let mut i: usize = 0;
    while i < 32
        invariant
            0 <= i <= 32,
            name@.len() == i,
            forall|j: int| 0 <= j < i ==> name@[j] == letters@[j],
        decreases 32 - i,
    {
        name.push(letters[i]);
        i += 1;
    }
    assert(name@ =~= spec_protocol_name());
    name
}

/// The evolving key material of one handshake attempt.
#[derive(Debug)]
pub struct KeySchedule {
    /// The local static secret.
    pub s: Vec<u8>,
    /// The local ephemeral secret.
    pub e: Vec<u8>,
    /// The peer's static public key, once received.
    pub rs: Vec<u8>,
    /// The peer's ephemeral public key, once received.
    pub re: Vec<u8>,
    /// The running digest of everything exchanged so far.
    pub h: Vec<u8>,
    /// The chaining key.
    pub ck: Vec<u8>,
    /// The current cipher key.
    pub k: Vec<u8>,
}

pub struct KeyScheduleView {
    pub s: Seq<u8>,
    pub e: Seq<u8>,
    pub rs: Seq<u8>,
    pub re: Seq<u8>,
    pub h: Seq<u8>,
    pub ck: Seq<u8>,
    pub k: Seq<u8>,
}

impl View for KeySchedule {
    type V = KeyScheduleView;

    open spec fn view(&self) -> KeyScheduleView {
        KeyScheduleView {
            s: self.s@,
            e: self.e@,
            rs: self.rs@,
            re: self.re@,
            h: self.h@,
            ck: self.ck@,
            k: self.k@,
        }
    }
}

/// A schedule that holds no key material at all.
pub open spec fn spec_cleared() -> KeyScheduleView {
    KeyScheduleView {
        s: Seq::empty(),
        e: Seq::empty(),
        rs: Seq::empty(),
        re: Seq::empty(),
        h: Seq::empty(),
        ck: Seq::empty(),
        k: Seq::empty(),
    }
}

/// A schedule that holds the two local secrets and nothing else.
pub open spec fn spec_fresh(s: Seq<u8>, e: Seq<u8>) -> KeyScheduleView {
    KeyScheduleView { s, e, ..spec_cleared() }
}

/// The schedule at the start of the exchange: the chaining key is the
/// protocol name, the digest that of the name followed by an empty prologue.
pub open spec fn spec_start<V: XXVault>(vault: &V, keys: KeyScheduleView) -> KeyScheduleView {
    KeyScheduleView {
        h: vault.spec_hash(spec_protocol_name()),
        ck: spec_protocol_name(),
        k: Seq::empty(),
        ..keys
    }
}

pub open spec fn spec_mix_hash<V: XXVault>(
    vault: &V,
    keys: KeyScheduleView,
    data: Seq<u8>,
) -> KeyScheduleView {
    KeyScheduleView { h: vault.spec_hash(keys.h + data), ..keys }
}

pub open spec fn spec_mix_key<V: XXVault>(
    vault: &V,
    keys: KeyScheduleView,
    input: Seq<u8>,
) -> KeyScheduleView {
    let derived = vault.spec_hkdf(keys.ck, input);
    KeyScheduleView { ck: derived.0, k: derived.1, ..keys }
}

/// The ciphertext of `plaintext` under the current key and digest.
pub open spec fn spec_seal<V: XXVault>(
    vault: &V,
    keys: KeyScheduleView,
    plaintext: Seq<u8>,
) -> Seq<u8> {
    vault.spec_encrypt(keys.k, keys.h, plaintext)
}

/// The plaintext of `ciphertext` under the current key and digest.
pub open spec fn spec_open<V: XXVault>(
    vault: &V,
    keys: KeyScheduleView,
    ciphertext: Seq<u8>,
) -> Option<Seq<u8>> {
    vault.spec_decrypt(keys.k, keys.h, ciphertext)
}

impl KeySchedule {
    pub fn fresh(s: Vec<u8>, e: Vec<u8>) -> (keys: Self)
        ensures
            keys@ == spec_fresh(s@, e@),
    {
        KeySchedule {
            s,
            e,
            rs: Vec::new(),
            re: Vec::new(),
            h: Vec::new(),
            ck: Vec::new(),
            k: Vec::new(),
        }
    }

    /// Drops every key and digest that the schedule holds.
    pub fn clear(&mut self)
        ensures
            final(self)@ == spec_cleared(),
    {
        self.s = Vec::new();
        self.e = Vec::new();
        self.rs = Vec::new();
        self.re = Vec::new();
        self.h = Vec::new();
        self.ck = Vec::new();
        self.k = Vec::new();
    }

    pub fn start<V: XXVault>(&mut self, vault: &V)
        ensures
            final(self)@ == spec_start(vault, old(self)@),
    {
        let name = protocol_name();
        self.h = vault.hash(name.as_slice());
        self.ck = name;
        self.k = Vec::new();
    }

    pub fn mix_hash<V: XXVault>(&mut self, vault: &V, data: &[u8])
        ensures
            final(self)@ == spec_mix_hash(vault, old(self)@, data@),
    {
        let mut input = clone_bytes(&self.h);
        append_bytes(&mut input, data);
        self.h = vault.hash(input.as_slice());
    }

    pub fn mix_key<V: XXVault>(&mut self, vault: &V, input: &[u8])
        ensures
            final(self)@ == spec_mix_key(vault, old(self)@, input@),
    {
        let (ck, k) = vault.hkdf(self.ck.as_slice(), input);
        self.ck = ck;
        self.k = k;
    }

    /// Encrypts `plaintext` and mixes the ciphertext into the digest.
    pub fn encrypt_and_hash<V: XXVault>(&mut self, vault: &V, plaintext: &[u8]) -> (ciphertext:
        Vec<u8>)
        ensures
            ciphertext@ == spec_seal(vault, old(self)@, plaintext@),
            final(self)@ == spec_mix_hash(vault, old(self)@, ciphertext@),
    {
        let ciphertext = vault.encrypt(self.k.as_slice(), self.h.as_slice(), plaintext);
        self.mix_hash(vault, ciphertext.as_slice());
        ciphertext
    }

    /// Decrypts `ciphertext` and, where it authenticates, mixes it into the
    /// digest. Leaves the schedule as it was where it does not.
    pub fn decrypt_and_hash<V: XXVault>(&mut self, vault: &V, ciphertext: &[u8]) -> (plaintext:
        Option<Vec<u8>>)
        ensures
            match plaintext {
                Some(p) => spec_open(vault, old(self)@, ciphertext@) == Some(p@) && final(self)@
                    == spec_mix_hash(vault, old(self)@, ciphertext@),
                None => spec_open(vault, old(self)@, ciphertext@) is None && final(self)@ == old(
                    self,
                )@,
            },
    {
        match vault.decrypt(self.k.as_slice(), self.h.as_slice(), ciphertext) {
            None => None,
            Some(plaintext) => {
                self.mix_hash(vault, ciphertext);
                Some(plaintext)
            },
        }
    }
}

} // verus!
