//! The access decision that closes a handshake.
//!
//! A trust policy is asked once per attempt, about a peer whose identity and
//! credentials have already been verified, whether that peer may use the
//! channel.

use vstd::prelude::*;
use crate::identity::{Identifier, Identity, IdentityView};
use crate::codec::views;

verus! {

/// Decides whether an authenticated identity is admitted.
pub trait TrustPolicy {
    /// The decision, as a function of the policy and the candidate.
    spec fn spec_check(&self, candidate: IdentityView) -> bool;

    fn check(&self, candidate: &Identity) -> (admitted: bool)
        ensures
            admitted == self.spec_check(candidate@),
    ;
}

/// Admits every authenticated peer.
#[derive(Clone, Copy, Debug)]
pub struct TrustEveryonePolicy;

impl TrustPolicy for TrustEveryonePolicy {
    open spec fn spec_check(&self, candidate: IdentityView) -> bool {
        true
    }

    fn check(&self, candidate: &Identity) -> (admitted: bool) {
        true
    }
}

/// Admits the one peer with a given identifier.
#[derive(Debug)]
pub struct TrustIdentifierPolicy {
    pub identifier: Identifier,
}

impl TrustIdentifierPolicy {
    pub fn new(identifier: Identifier) -> (policy: Self)
        ensures
            policy.identifier@ == identifier@,
    {
        TrustIdentifierPolicy { identifier }
    }
}

impl TrustPolicy for TrustIdentifierPolicy {
    open spec fn spec_check(&self, candidate: IdentityView) -> bool {
        candidate.identifier == self.identifier@
    }

    fn check(&self, candidate: &Identity) -> (admitted: bool) {
        candidate.identifier().same_as(&self.identifier)
    }
}

/// Admits the peers whose identifier is on an allow-list.
#[derive(Debug)]
pub struct TrustMultiIdentifiersPolicy {
    pub identifiers: Vec<Identifier>,
}

impl TrustMultiIdentifiersPolicy {
    pub fn new(identifiers: Vec<Identifier>) -> (policy: Self)
        ensures
            views(policy.identifiers@) == views(identifiers@),
    {
        TrustMultiIdentifiersPolicy { identifiers }
    }
}

impl TrustPolicy for TrustMultiIdentifiersPolicy {
    open spec fn spec_check(&self, candidate: IdentityView) -> bool {
        views(self.identifiers@).contains(candidate.identifier)
    }

    fn check(&self, candidate: &Identity) -> (admitted: bool) {
        let mut i: usize = 0;
        while i < self.identifiers.len()
            invariant
                0 <= i <= self.identifiers@.len(),
                forall|j: int|
                    0 <= j < i ==> views(self.identifiers@)[j] != candidate@.identifier,
            decreases self.identifiers@.len() - i,
        {
            if self.identifiers[i].same_as(candidate.identifier()) {
                assert(views(self.identifiers@)[i as int] == candidate@.identifier);
                return true;
            }
            i += 1;
        }
        false
    }
}

} // verus!
