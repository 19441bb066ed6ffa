//! The messages between a vault that runs as a worker and those who ask it
//! to compute, and what an answer is taken for.

use vstd::prelude::*;

verus! {

/// What a vault worker is asked.
#[derive(Debug, PartialEq, Eq)]
pub enum VaultRequestMessage {
    /// The digest of `data`.
    Sha256 { data: Vec<u8> },
    /// Keys derived from a salt, optional input key material and `info`,
    /// one of each of the lengths asked for.
    HkdfSha256 { salt: Vec<u8>, info: Vec<u8>, ikm: Option<Vec<u8>>, output_lengths: Vec<usize> },
}

/// What a vault worker answers.
#[derive(Debug, PartialEq, Eq)]
pub enum VaultResponseMessage {
    Sha256(Vec<u8>),
    HkdfSha256(Vec<Vec<u8>>),
}

/// Why an answer of a vault worker could not be used.
#[derive(Clone, Copy, Debug, PartialEq, Eq, Structural)]
pub enum VaultSyncCoreError {
    /// The worker answered another question than the one it was asked.
    InvalidResponseType,
}

/// The digest that a worker answered with; an error where it answered
/// something else.
pub fn sha256(response: VaultResponseMessage) -> (r: Result<Vec<u8>, VaultSyncCoreError>)
    ensures
        match response {
            VaultResponseMessage::Sha256(digest) => r == Ok::<Vec<u8>, VaultSyncCoreError>(
                digest,
            ),
            _ => r == Err::<Vec<u8>, VaultSyncCoreError>(VaultSyncCoreError::InvalidResponseType),
        },
{
    match response {
        VaultResponseMessage::Sha256(digest) => Ok(digest),
        _ => Err(VaultSyncCoreError::InvalidResponseType),
    }
}

/// The keys that a worker answered with; an error where it answered
/// something else.
pub fn hkdf_sha256(response: VaultResponseMessage) -> (r: Result<
    Vec<Vec<u8>>,
    VaultSyncCoreError,
>)
    ensures
        match response {
            VaultResponseMessage::HkdfSha256(keys) => r == Ok::<
                Vec<Vec<u8>>,
                VaultSyncCoreError,
            >(keys),
            _ => r == Err::<Vec<Vec<u8>>, VaultSyncCoreError>(
                VaultSyncCoreError::InvalidResponseType,
            ),
        },
{
    match response {
        VaultResponseMessage::HkdfSha256(keys) => Ok(keys),
        _ => Err(VaultSyncCoreError::InvalidResponseType),
    }
}

} // verus!
