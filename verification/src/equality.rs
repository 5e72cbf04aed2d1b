//! When two tables count as equal.

use vstd::prelude::*;
use vstd::std_specs::cmp::PartialEqSpecImpl;
use crate::table::{fallback, VoseAlias};

verus! {

/// Two tables are equal when they assign the same alias to every bucket: bucket for bucket,
/// by position. Neither the elements nor the probabilities are compared.
impl<T> PartialEq for VoseAlias<T> {
    fn eq(&self, other: &Self) -> (equal: bool) {
        let n: usize = self.alias.len();
        if other.alias.len() != n {
            return false;
        }
        let mut i: usize = 0;
        while i < n
            invariant
                n == self.alias.len(),
                n == other.alias.len(),
                0 <= i <= n,
                forall|k: int| 0 <= k < i ==> self.alias@[k] == other.alias@[k],
            decreases n - i,
        {
            let same = match (self.alias[i], other.alias[i]) {
                (Some(a), Some(b)) => a == b,
                (None, None) => true,
                _ => false,
            };
            if !same {
                proof {
                    let k: int = i as int;
                    assert(self@.alias[k] == fallback(self.alias@[k]));
                    assert(other@.alias[k] == fallback(other.alias@[k]));
                }
                return false;
            }
            i = i + 1;
        }
        proof {
            assert(self@.alias =~= other@.alias);
        }
        true
    }
}

impl<T> PartialEqSpecImpl for VoseAlias<T> {
    open spec fn obeys_eq_spec() -> bool {
        true
    }

    open spec fn eq_spec(&self, other: &Self) -> bool {
        self@.alias == other@.alias
    }
}

impl<T> Eq for VoseAlias<T> {}

} // verus!
