//! The per-invocation context handed in by the hosting environment.

use vstd::prelude::*;

use crate::types::Address;

verus! {

/// What the hosting ledger knows about the current invocation: which
/// principals have cryptographically authorized it, and the current ledger
/// timestamp.
///
/// The authorization oracle of the host is modelled as this explicit set of
/// signers; an operation is authorized by a principal exactly when that
/// principal is among them.
pub struct CallContext {
    /// Principals that have authorized the current invocation.
    pub signers: Vec<Address>,
    /// Current ledger timestamp, in seconds.
    pub timestamp: u64,
}

impl CallContext {
    /// `a` has authorized the current invocation.
    pub open spec fn authorized(&self, a: Address) -> bool {
        self.signers@.contains(a)
    }

    /// Checks whether `a` has authorized the current invocation.
    pub fn is_authorized(&self, a: Address) -> (b: bool)
        ensures
            b == self.authorized(a),
    {
        let n = self.signers.len();
        let mut i: usize = 0;
        while i < n
            invariant
                n == self.signers@.len(),
                i <= n,
                forall|j: int| 0 <= j < i ==> self.signers@[j] != a,
            decreases n - i,
        {
            if self.signers[i] == a {
                return true;
            }
            i += 1;
        }
        false
    }
}

} // verus!
