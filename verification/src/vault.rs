//! The cryptographic capability that the handshake drives.
//!
//! The handshake never computes a primitive itself. It sequences calls into a
//! vault and is verified against the names that the vault gives to its
//! results.

use vstd::prelude::*;

verus! {

/// Length in bytes of a Diffie-Hellman public key on the wire.
pub const PUBLIC_KEY_SIZE: usize = 32;

/// Length in bytes that authenticated encryption adds to a plaintext.
pub const TAG_SIZE: usize = 16;

/// Primitive operations of an XX handshake with identity proofs.
///
/// Every operation but `generate_secret` is a function of its arguments, and
/// the trait names that function so that contracts can speak of it.
pub trait XXVault {
    /// Digest of `data`.
    spec fn spec_hash(&self, data: Seq<u8>) -> Seq<u8>;

    /// Diffie-Hellman public key of `secret`.
    spec fn spec_public_key(&self, secret: Seq<u8>) -> Seq<u8>;

    /// Diffie-Hellman shared secret of `secret` and a peer's public key.
    spec fn spec_dh(&self, secret: Seq<u8>, peer: Seq<u8>) -> Seq<u8>;

    /// Next chaining key and cipher key derived from a chaining key and input
    /// key material.
    spec fn spec_hkdf(&self, chaining_key: Seq<u8>, input: Seq<u8>) -> (Seq<u8>, Seq<u8>);

    /// Ciphertext and tag of `plaintext` under `key`, bound to `ad`.
    spec fn spec_encrypt(&self, key: Seq<u8>, ad: Seq<u8>, plaintext: Seq<u8>) -> Seq<u8>;

    /// Plaintext of `ciphertext` under `key` and `ad`, or `None` where it does
    /// not authenticate.
    spec fn spec_decrypt(&self, key: Seq<u8>, ad: Seq<u8>, ciphertext: Seq<u8>) -> Option<
        Seq<u8>,
    >;

    /// Verifying key that belongs to a signing key.
    spec fn spec_verifying_key(&self, signing_key: Seq<u8>) -> Seq<u8>;

    /// Signature of `data` under `signing_key`.
    spec fn spec_sign(&self, signing_key: Seq<u8>, data: Seq<u8>) -> Seq<u8>;

    /// Whether `signature` is a signature of `data` under `verifying_key`.
    spec fn spec_verify(&self, verifying_key: Seq<u8>, data: Seq<u8>, signature: Seq<u8>) -> bool;

    /// A fresh Diffie-Hellman secret. Nothing is known of it.
    fn generate_secret(&self) -> Vec<u8>;

    fn hash(&self, data: &[u8]) -> (digest: Vec<u8>)
        ensures
            digest@ == self.spec_hash(data@),
    ;

    fn public_key(&self, secret: &[u8]) -> (public: Vec<u8>)
        ensures
            public@ == self.spec_public_key(secret@),
    ;

    fn dh(&self, secret: &[u8], peer: &[u8]) -> (shared: Vec<u8>)
        ensures
            shared@ == self.spec_dh(secret@, peer@),
    ;

    fn hkdf(&self, chaining_key: &[u8], input: &[u8]) -> (keys: (Vec<u8>, Vec<u8>))
        ensures
            (keys.0@, keys.1@) == self.spec_hkdf(chaining_key@, input@),
    ;

    fn encrypt(&self, key: &[u8], ad: &[u8], plaintext: &[u8]) -> (ciphertext: Vec<u8>)
        ensures
            ciphertext@ == self.spec_encrypt(key@, ad@, plaintext@),
    ;

    fn decrypt(&self, key: &[u8], ad: &[u8], ciphertext: &[u8]) -> (plaintext: Option<Vec<u8>>)
        ensures
            match plaintext {
                Some(p) => self.spec_decrypt(key@, ad@, ciphertext@) == Some(p@),
                None => self.spec_decrypt(key@, ad@, ciphertext@) is None,
            },
    ;

    fn verifying_key(&self, signing_key: &[u8]) -> (key: Vec<u8>)
        ensures
            key@ == self.spec_verifying_key(signing_key@),
    ;

    fn sign(&self, signing_key: &[u8], data: &[u8]) -> (signature: Vec<u8>)
        ensures
            signature@ == self.spec_sign(signing_key@, data@),
    ;

    fn verify(&self, verifying_key: &[u8], data: &[u8], signature: &[u8]) -> (valid: bool)
        ensures
            valid == self.spec_verify(verifying_key@, data@, signature@),
    ;
}

/// The algebra that the two ends of a handshake rely on to understand each
/// other: public keys have their wire length, Diffie-Hellman commutes,
/// encryption adds the tag and decrypts to what was encrypted, and a
/// signature verifies under the key that belongs to its signing key.
pub open spec fn vault_is_sound<V: XXVault>(vault: &V) -> bool {
    &&& forall|secret: Seq<u8>| #[trigger]
        vault.spec_public_key(secret).len() == PUBLIC_KEY_SIZE
    &&& forall|a: Seq<u8>, b: Seq<u8>| #[trigger]
        vault.spec_dh(a, vault.spec_public_key(b)) == vault.spec_dh(b, vault.spec_public_key(a))
    &&& forall|key: Seq<u8>, ad: Seq<u8>, plaintext: Seq<u8>| #[trigger]
        vault.spec_encrypt(key, ad, plaintext).len() == plaintext.len() + TAG_SIZE
    &&& forall|key: Seq<u8>, ad: Seq<u8>, plaintext: Seq<u8>|
        vault.spec_decrypt(key, ad, #[trigger] vault.spec_encrypt(key, ad, plaintext)) == Some(
            plaintext,
        )
    &&& forall|signing_key: Seq<u8>, data: Seq<u8>|
        vault.spec_verify(
            vault.spec_verifying_key(signing_key),
            data,
            #[trigger] vault.spec_sign(signing_key, data),
        )
}

/// Whether `b` is `a` with exactly one byte changed.
pub open spec fn differs_in_one_place(a: Seq<u8>, b: Seq<u8>) -> bool {
    &&& a.len() == b.len()
    &&& exists|place: int|
        0 <= place < a.len() && a[place] != b[place] && forall|other: int|
            0 <= other < a.len() && other != place ==> a[other] == b[other]
}

/// Whether the vault's cipher notices a changed byte: a ciphertext that
/// authenticates no longer does once one byte of it is changed. A real
/// cipher has this up to a negligible chance; the laws that rest on it name
/// it as their premise.
pub open spec fn vault_detects_tampering<V: XXVault>(vault: &V) -> bool {
    forall|key: Seq<u8>, ad: Seq<u8>, sealed: Seq<u8>, changed: Seq<u8>|
        #![trigger vault.spec_decrypt(key, ad, sealed), differs_in_one_place(sealed, changed)]
        vault.spec_decrypt(key, ad, sealed) is Some && differs_in_one_place(sealed, changed)
            ==> vault.spec_decrypt(key, ad, changed) is None
}

/// Whether the two keys that the vault derives at once always differ. A
/// real derivation has this up to a negligible chance; the laws that rest
/// on it name it as their premise.
pub open spec fn vault_derives_distinct_keys<V: XXVault>(vault: &V) -> bool {
    forall|chaining_key: Seq<u8>, input: Seq<u8>|
        (#[trigger] vault.spec_hkdf(chaining_key, input)).0 != vault.spec_hkdf(
            chaining_key,
            input,
        ).1
}

} // verus!
