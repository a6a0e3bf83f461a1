//! Identities and the scalar units shared by every component.

use vstd::prelude::*;
use vstd::std_specs::cmp::PartialEqSpecImpl;

verus! {

/// Milliseconds since the epoch of whatever clock the host uses.
pub type Timestamp = u64;

/// An amount of the host's native token.
pub type Balance = u128;

/// The identity of an account: thirty-two opaque bytes.
///
/// Two identities are the same account exactly when all bytes agree.
#[derive(Clone, Copy, Debug)]
pub struct AccountId {
    pub bytes: [u8; 32],
}

impl PartialEq for AccountId {
    fn eq(&self, other: &Self) -> (r: bool) {
        let mut i: usize = 0;
        while i < 32
            invariant
                i <= 32,
                forall|j: int| 0 <= j < i ==> self.bytes@[j] == other.bytes@[j],
            decreases 32 - i,
        {
            if self.bytes[i] != other.bytes[i] {
                return false;
            }
            i += 1;
        }
        assert(self.bytes =~= other.bytes);
        true
    }
}

impl Eq for AccountId {

}

impl PartialEqSpecImpl for AccountId {
    open spec fn obeys_eq_spec() -> bool {
        true
    }

    open spec fn eq_spec(&self, other: &Self) -> bool {
        *self == *other
    }
}

/// `Some(a) == Some(b)` for optional identities, and `false` when `expected` is absent.
pub fn is_account(expected: &Option<AccountId>, actual: &AccountId) -> (r: bool)
    ensures
        r == (*expected == Some(*actual)),
{
    match expected {
        Some(a) => *a == *actual,
        None => false,
    }
}

} // verus!
