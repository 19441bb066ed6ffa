//! A vault with the algebra of a real one and none of its strength.
//!
//! It serves to exercise the protocol end to end, and its existence shows
//! that what the laws of the handshake ask of a vault can be had. Its
//! digests are sums of bytes and its cipher is a mask of one byte: it keeps
//! no secret and must never guard one.

use vstd::prelude::*;
use crate::bytes::{append_bytes, bytes_eq, copy_range};
use crate::text::random_bytes;
use crate::vault::{
    differs_in_one_place, vault_derives_distinct_keys, vault_detects_tampering, vault_is_sound,
    XXVault, TAG_SIZE,
};

verus! {

/// One step of lane `seed` of the digest: a linear congruence on thirty-two
/// bits, with a multiplier of the lane's own.
pub open spec fn spec_step(state: u32, byte: u8, seed: u8) -> u32 {
    ((state as int * (1664525 + 8 * seed as int) + byte as int + 1013904223) % 0x1_0000_0000) as u32
}

/// The state of lane `seed` after all of `data`.
pub open spec fn spec_lane_state(data: Seq<u8>, seed: u8) -> u32
    decreases data.len(),
{
    if data.len() == 0 {
        (seed as int * 40503 + 1) as u32
    } else {
        spec_step(spec_lane_state(data.drop_last(), seed), data.last(), seed)
    }
}

/// One byte of the digest of `data`: the high byte of the state of lane
/// `seed`. Lane 0 gives its low byte instead, which no change of a single
/// byte of `data` leaves as it was.
pub open spec fn spec_lane(data: Seq<u8>, seed: u8) -> u8 {
    if seed == 0 {
        (spec_lane_state(data, seed) % 256) as u8
    } else {
        (spec_lane_state(data, seed) / 0x100_0000) as u8
    }
}

/// Two states that differ in their low byte still do after a step with
/// the same byte, and equal states do after a step with different bytes:
/// the multiplier of lane 0 is odd.
pub proof fn lemma_step_keeps_difference(a: u32, b: u32, x: u8, y: u8)
    requires
        (a % 256 != b % 256 && x == y) || (a == b && x != y),
    ensures
        spec_step(a, x, 0) % 256 != spec_step(b, y, 0) % 256,
{
    let a64 = a as u64;
    let b64 = b as u64;
    let x64 = x as u64;
    let y64 = y as u64;
    let left = ((((a64 * 1664525u64) as u64 + x64) as u64 + 1013904223u64) as u64
        % 0x1_0000_0000u64) as u64;
    let right = ((((b64 * 1664525u64) as u64 + y64) as u64 + 1013904223u64) as u64
        % 0x1_0000_0000u64) as u64;
    assert((left % 256u64) as u64 != (right % 256u64) as u64) by (bit_vector)
        requires
            a64 < 0x1_0000_0000u64 && b64 < 0x1_0000_0000u64 && x64 < 256u64 && y64 < 256u64,
            ((a64 % 256u64) as u64 != (b64 % 256u64) as u64 && x64 == y64) || (a64 == b64 && x64
                != y64),
            left == ((((a64 * 1664525u64) as u64 + x64) as u64 + 1013904223u64) as u64
                % 0x1_0000_0000u64) as u64,
            right == ((((b64 * 1664525u64) as u64 + y64) as u64 + 1013904223u64) as u64
                % 0x1_0000_0000u64) as u64,
    ;
    assert(a64 * 1664525u64 <= 0xffff_ffff * 1664525) by (nonlinear_arith)
        requires
            a64 <= 0xffff_ffff,
    ;
    assert(b64 * 1664525u64 <= 0xffff_ffff * 1664525) by (nonlinear_arith)
        requires
            b64 <= 0xffff_ffff,
    ;
    assert(spec_step(a, x, 0) == left);
    assert(spec_step(b, y, 0) == right);
}

/// Data with exactly one byte changed has another low byte in lane 0.
pub proof fn lemma_changed_byte_shows(data: Seq<u8>, changed: Seq<u8>, place: int)
    requires
        data.len() == changed.len(),
        0 <= place < data.len(),
        data[place] != changed[place],
        forall|other: int| 0 <= other < data.len() && other != place ==> data[other] == changed[other],
    ensures
        spec_lane_state(data, 0) % 256 != spec_lane_state(changed, 0) % 256,
        spec_lane(data, 0) != spec_lane(changed, 0),
    decreases data.len(),
{
    let shorter = data.drop_last();
    let other = changed.drop_last();
    if place == data.len() - 1 {
        assert(shorter =~= other);
        lemma_step_keeps_difference(
            spec_lane_state(shorter, 0),
            spec_lane_state(other, 0),
            data.last(),
            changed.last(),
        );
    } else {
        lemma_changed_byte_shows(shorter, other, place);
        lemma_step_keeps_difference(
            spec_lane_state(shorter, 0),
            spec_lane_state(other, 0),
            data.last(),
            changed.last(),
        );
    }
}

/// The digest of `data`: thirty-two lanes, each from its own seed.
pub open spec fn spec_digest(data: Seq<u8>) -> Seq<u8> {
    Seq::new(32, |i: int| spec_lane(data, i as u8))
}

/// The byte of `data` at `index`, or zero where `data` is shorter.
pub open spec fn spec_byte_at(data: Seq<u8>, index: int) -> u8 {
    if 0 <= index < data.len() {
        data[index]
    } else {
        0
    }
}

/// The byte that masks a plaintext under `key`.
pub open spec fn spec_mask(key: Seq<u8>) -> u8 {
    spec_lane(key, 51)
}

/// `data` with every byte masked.
pub open spec fn spec_masked(data: Seq<u8>, mask: u8) -> Seq<u8> {
    Seq::new(data.len(), |i: int| data[i] ^ mask)
}

/// The tag that authenticates `body` under `key` and `ad`.
pub open spec fn spec_tag(key: Seq<u8>, ad: Seq<u8>, body: Seq<u8>) -> Seq<u8> {
    spec_digest(key + ad + body).subrange(0, TAG_SIZE as int)
}

fn lane(data: &[u8], seed: u8) -> (byte: u8)
    ensures
        byte == spec_lane(data@, seed),
{
    let mut state: u32 = seed as u32 * 40503 + 1;
    let factor: u64 = 1664525 + 8 * (seed as u64);
    let mut i: usize = 0;
    while i < data.len()
        invariant
            0 <= i <= data@.len(),
            factor == 1664525 + 8 * seed as int,
            state == spec_lane_state(data@.take(i as int), seed),
        decreases data@.len() - i,
    {
        assert(state as u64 * factor <= 0xffff_ffff * 1666565) by (nonlinear_arith)
            requires
                state <= 0xffff_ffff,
                factor <= 1666565,
        ;
        let next: u64 = (state as u64 * factor + data[i] as u64 + 1013904223) % 0x1_0000_0000;
        proof {
            let longer = data@.take(i + 1);
            assert(longer.drop_last() =~= data@.take(i as int));
            assert(longer.last() == data@[i as int]);
        }
        state = next as u32;
        i += 1;
    }
    assert(data@.take(data@.len() as int) =~= data@);
    if seed == 0 {
        (state % 256) as u8
    } else {
        (state / 0x100_0000) as u8
    }
}

fn digest(data: &[u8]) -> (out: Vec<u8>)
    ensures
        out@ == spec_digest(data@),
{
    let mut out: Vec<u8> = Vec::new();
    let mut i: u8 = 0;
    while i < 32
        invariant
            0 <= i <= 32,
            out@.len() == i,
            forall|j: int| 0 <= j < i ==> out@[j] == spec_lane(data@, j as u8),
        decreases 32 - i,
    {
        out.push(lane(data, i));
        i += 1;
    }
    assert(out@ =~= spec_digest(data@));
    out
}

fn byte_at(data: &[u8], index: usize) -> (byte: u8)
    ensures
        byte == spec_byte_at(data@, index as int),
{
    if index < data.len() {
        data[index]
    } else {
        0
    }
}

fn masked(data: &[u8], mask: u8) -> (out: Vec<u8>)
    ensures
        out@ == spec_masked(data@, mask),
{
    let mut out: Vec<u8> = Vec::new();
    let mut i: usize = 0;
    while i < data.len()
        invariant
            0 <= i <= data@.len(),
            out@.len() == i,
            forall|j: int| 0 <= j < i ==> out@[j] == data@[j] ^ mask,
        decreases data@.len() - i,
    {
        out.push(data[i] ^ mask);
        i += 1;
    }
    assert(out@ =~= spec_masked(data@, mask));
    out
}

fn concat(a: &[u8], b: &[u8], c: &[u8]) -> (out: Vec<u8>)
    ensures
        out@ == a@ + b@ + c@,
{
    let mut out: Vec<u8> = Vec::new();
    append_bytes(&mut out, a);
    append_bytes(&mut out, b);
    append_bytes(&mut out, c);
    assert(out@ =~= a@ + b@ + c@);
    out
}

/// The model vault. It has no state.
#[derive(Clone, Copy, Debug, PartialEq, Eq)]
pub struct ModelVault;

impl XXVault for ModelVault {
    open spec fn spec_hash(&self, data: Seq<u8>) -> Seq<u8> {
        spec_digest(data)
    }

    open spec fn spec_public_key(&self, secret: Seq<u8>) -> Seq<u8> {
        Seq::new(32, |i: int| spec_byte_at(secret, i) ^ 0x5c)
    }

    open spec fn spec_dh(&self, secret: Seq<u8>, peer: Seq<u8>) -> Seq<u8> {
        Seq::new(32, |i: int| spec_byte_at(secret, i) ^ spec_byte_at(peer, i) ^ 0x5c)
    }

    open spec fn spec_hkdf(&self, chaining_key: Seq<u8>, input: Seq<u8>) -> (Seq<u8>, Seq<u8>) {
        (spec_digest(seq![1u8] + chaining_key + input), spec_digest(seq![2u8] + chaining_key + input))
    }

    open spec fn spec_encrypt(&self, key: Seq<u8>, ad: Seq<u8>, plaintext: Seq<u8>) -> Seq<u8> {
        let body = spec_masked(plaintext, spec_mask(key));
        body + spec_tag(key, ad, body)
    }

    open spec fn spec_decrypt(&self, key: Seq<u8>, ad: Seq<u8>, ciphertext: Seq<u8>) -> Option<
        Seq<u8>,
    > {
        if ciphertext.len() < TAG_SIZE {
            None
        } else {
            let body = ciphertext.subrange(0, ciphertext.len() - TAG_SIZE);
            let tag = ciphertext.subrange(ciphertext.len() - TAG_SIZE, ciphertext.len() as int);
            if tag == spec_tag(key, ad, body) {
                Some(spec_masked(body, spec_mask(key)))
            } else {
                None
            }
        }
    }

    open spec fn spec_verifying_key(&self, signing_key: Seq<u8>) -> Seq<u8> {
        spec_digest(seq![3u8] + signing_key + Seq::<u8>::empty())
    }

    open spec fn spec_sign(&self, signing_key: Seq<u8>, data: Seq<u8>) -> Seq<u8> {
        spec_digest(seq![4u8] + self.spec_verifying_key(signing_key) + data)
    }

    open spec fn spec_verify(&self, verifying_key: Seq<u8>, data: Seq<u8>, signature: Seq<u8>) -> bool {
        signature == spec_digest(seq![4u8] + verifying_key + data)
    }

    /// Thirty-two random bytes: eight draws of four.
    fn generate_secret(&self) -> (secret: Vec<u8>)
        ensures
            secret@.len() == 32,
    {
        let mut secret: Vec<u8> = Vec::new();
        let mut i: usize = 0;
        while i < 8
            invariant
                0 <= i <= 8,
                secret@.len() == 4 * i,
            decreases 8 - i,
        {
            let more = random_bytes();
            append_bytes(&mut secret, more.as_slice());
            i += 1;
        }
        secret
    }

    fn hash(&self, data: &[u8]) -> (out: Vec<u8>) {
        digest(data)
    }

    fn public_key(&self, secret: &[u8]) -> (public: Vec<u8>) {
        let mut public: Vec<u8> = Vec::new();
        let mut i: usize = 0;
        while i < 32
            invariant
                0 <= i <= 32,
                public@.len() == i,
                forall|j: int| 0 <= j < i ==> public@[j] == spec_byte_at(secret@, j) ^ 0x5c,
            decreases 32 - i,
        {
            public.push(byte_at(secret, i) ^ 0x5c);
            i += 1;
        }
        assert(public@ =~= self.spec_public_key(secret@));
        public
    }

    fn dh(&self, secret: &[u8], peer: &[u8]) -> (shared: Vec<u8>) {
        let mut shared: Vec<u8> = Vec::new();
        let mut i: usize = 0;
        while i < 32
            invariant
                0 <= i <= 32,
                shared@.len() == i,
                forall|j: int|
                    0 <= j < i ==> shared@[j] == spec_byte_at(secret@, j) ^ spec_byte_at(
                        peer@,
                        j,
                    ) ^ 0x5c,
            decreases 32 - i,
        {
            shared.push(byte_at(secret, i) ^ byte_at(peer, i) ^ 0x5c);
            i += 1;
        }
        assert(shared@ =~= self.spec_dh(secret@, peer@));
        shared
    }

    fn hkdf(&self, chaining_key: &[u8], input: &[u8]) -> (keys: (Vec<u8>, Vec<u8>)) {
        let one: [u8; 1] = [1u8];
        let two: [u8; 1] = [2u8];
        let first = concat(one.as_slice(), chaining_key, input);
        let second = concat(two.as_slice(), chaining_key, input);
        assert(one@ =~= seq![1u8]);
        assert(two@ =~= seq![2u8]);
        (digest(first.as_slice()), digest(second.as_slice()))
    }

    fn encrypt(&self, key: &[u8], ad: &[u8], plaintext: &[u8]) -> (ciphertext: Vec<u8>) {
        let mut out = masked(plaintext, lane(key, 51));
        let covered = concat(key, ad, out.as_slice());
        let full = digest(covered.as_slice());
        let tag = copy_range(full.as_slice(), 0, TAG_SIZE);
        append_bytes(&mut out, tag.as_slice());
        out
    }

    fn decrypt(&self, key: &[u8], ad: &[u8], ciphertext: &[u8]) -> (plaintext: Option<Vec<u8>>) {
        if ciphertext.len() < TAG_SIZE {
            return None;
        }
        let split = ciphertext.len() - TAG_SIZE;
        let body = copy_range(ciphertext, 0, split);
        let tag = copy_range(ciphertext, split, ciphertext.len());
        let covered = concat(key, ad, body.as_slice());
        let full = digest(covered.as_slice());
        let expected = copy_range(full.as_slice(), 0, TAG_SIZE);
        if !bytes_eq(tag.as_slice(), expected.as_slice()) {
            return None;
        }
        Some(masked(body.as_slice(), lane(key, 51)))
    }

    fn verifying_key(&self, signing_key: &[u8]) -> (key: Vec<u8>) {
        let three: [u8; 1] = [3u8];
        let nothing: Vec<u8> = Vec::new();
        let covered = concat(three.as_slice(), signing_key, nothing.as_slice());
        assert(three@ =~= seq![3u8]);
        digest(covered.as_slice())
    }

    fn sign(&self, signing_key: &[u8], data: &[u8]) -> (signature: Vec<u8>) {
        let four: [u8; 1] = [4u8];
        let key = self.verifying_key(signing_key);
        let covered = concat(four.as_slice(), key.as_slice(), data);
        assert(four@ =~= seq![4u8]);
        digest(covered.as_slice())
    }

    fn verify(&self, verifying_key: &[u8], data: &[u8], signature: &[u8]) -> (valid: bool) {
        let four: [u8; 1] = [4u8];
        let covered = concat(four.as_slice(), verifying_key, data);
        assert(four@ =~= seq![4u8]);
        let expected = digest(covered.as_slice());
        bytes_eq(signature, expected.as_slice())
    }
}

/// The model vault has the algebra that the handshake relies on.
pub proof fn lemma_model_vault_is_sound(vault: &ModelVault)
    ensures
        vault_is_sound(vault),
{
    assert forall|a: Seq<u8>, b: Seq<u8>| #[trigger]
        vault.spec_dh(a, vault.spec_public_key(b)) == vault.spec_dh(
            b,
            vault.spec_public_key(a),
        ) by {
        let left = vault.spec_dh(a, vault.spec_public_key(b));
        let right = vault.spec_dh(b, vault.spec_public_key(a));
        assert forall|i: int| 0 <= i < 32 implies left[i] == right[i] by {
            let x = spec_byte_at(a, i);
            let y = spec_byte_at(b, i);
            assert(x ^ (y ^ 0x5c) ^ 0x5c == y ^ (x ^ 0x5c) ^ 0x5c) by (bit_vector);
        }
        assert(left =~= right);
    }
    assert forall|key: Seq<u8>, ad: Seq<u8>, plaintext: Seq<u8>|
        vault.spec_decrypt(key, ad, #[trigger] vault.spec_encrypt(key, ad, plaintext)) == Some(
            plaintext,
        ) by {
        let mask = spec_mask(key);
        let body = spec_masked(plaintext, mask);
        let sealed = vault.spec_encrypt(key, ad, plaintext);
        assert(sealed.subrange(0, sealed.len() - TAG_SIZE) =~= body);
        assert(sealed.subrange(sealed.len() - TAG_SIZE, sealed.len() as int) =~= spec_tag(
            key,
            ad,
            body,
        ));
        assert forall|i: int| 0 <= i < plaintext.len() implies spec_masked(body, mask)[i]
            == plaintext[i] by {
            let p = plaintext[i];
            assert((p ^ mask) ^ mask == p) by (bit_vector);
        }
        assert(spec_masked(body, mask) =~= plaintext);
    }
}

/// The two keys that the model vault derives at once differ.
pub proof fn lemma_model_vault_derives_distinct_keys(vault: &ModelVault)
    ensures
        vault_derives_distinct_keys(vault),
{
    assert forall|chaining_key: Seq<u8>, input: Seq<u8>|
        (#[trigger] vault.spec_hkdf(chaining_key, input)).0 != vault.spec_hkdf(
            chaining_key,
            input,
        ).1 by {
        let first = seq![1u8] + chaining_key + input;
        let second = seq![2u8] + chaining_key + input;
        lemma_changed_byte_shows(first, second, 0);
        assert(spec_digest(first)[0] == spec_lane(first, 0));
        assert(spec_digest(second)[0] == spec_lane(second, 0));
    }
}

/// The model vault notices a changed byte of a ciphertext.
pub proof fn lemma_model_vault_detects_tampering(vault: &ModelVault)
    ensures
        vault_detects_tampering(vault),
{
    assert forall|key: Seq<u8>, ad: Seq<u8>, sealed: Seq<u8>, changed: Seq<u8>|
        #![trigger vault.spec_decrypt(key, ad, sealed), differs_in_one_place(sealed, changed)]
        vault.spec_decrypt(key, ad, sealed) is Some && differs_in_one_place(
            sealed,
            changed,
        ) implies vault.spec_decrypt(key, ad, changed) is None by {
        let place = choose|place: int|
            0 <= place < sealed.len() && sealed[place] != changed[place] && forall|other: int|
                0 <= other < sealed.len() && other != place ==> sealed[other] == changed[other];
        let split = sealed.len() - TAG_SIZE;
        let body = sealed.subrange(0, split);
        let tag = sealed.subrange(split, sealed.len() as int);
        let body2 = changed.subrange(0, split);
        let tag2 = changed.subrange(split, changed.len() as int);
        assert(tag == spec_tag(key, ad, body));
        if place >= split {
            assert(body2 =~= body);
            assert(tag[place - split] != tag2[place - split]);
        } else {
            let covered = key + ad + body;
            let covered2 = key + ad + body2;
            let at = key.len() + ad.len() + place;
            assert(covered[at] == body[place]);
            assert(covered2[at] == body2[place]);
            assert forall|other: int|
                0 <= other < covered.len() && other != at implies covered[other]
                == covered2[other] by {
                if other >= key.len() + ad.len() {
                    assert(covered[other] == body[other - key.len() - ad.len()]);
                    assert(covered2[other] == body2[other - key.len() - ad.len()]);
                }
            }
            lemma_changed_byte_shows(covered, covered2, at as int);
            assert(spec_tag(key, ad, body)[0] == spec_lane(covered, 0));
            assert(spec_tag(key, ad, body2)[0] == spec_lane(covered2, 0));
            assert(tag2[0] == tag[0]);
        }
    }
}

} // verus!
