//! Fresh labels for the points at which calls return.

use crate::text::{decimal, decimal_string, lemma_decimal_injective};
use vstd::prelude::*;
use vstd::string::*;

verus! {

/// The label of the return point with number `n`.
pub open spec fn return_label(n: nat) -> Seq<char> {
    "Return_address."@ + decimal(n)
}

/// Return points with different numbers have different labels.
pub proof fn lemma_return_labels_differ(m: nat, n: nat)
    requires
        m != n,
    ensures
        return_label(m) != return_label(n),
{
    let prefix = "Return_address."@;
    lemma_decimal_injective(m, n);
    assert(return_label(m).skip(prefix.len() as int) =~= decimal(m));
    assert(return_label(n).skip(prefix.len() as int) =~= decimal(n));
}

/// Hands out return labels, each one once.
pub struct ReturnAddressGenerator {
    counter: usize,
}

impl ReturnAddressGenerator {
    /// How many labels have been handed out.
    pub closed spec fn count(&self) -> nat {
        self.counter as nat
    }

    /// A generator that has handed out no label yet.
    pub fn new() -> (res: ReturnAddressGenerator)
        ensures
            res.count() == 0,
    {
        ReturnAddressGenerator { counter: 0 }
    }

    /// How many labels have been handed out.
    pub fn counter(&self) -> (res: usize)
        ensures
            res == self.count(),
    {
        self.counter
    }

    /// Hands out the next label. The count must still fit its machine word.
    pub fn generate_new_return_address(&mut self) -> (res: String)
        requires
            old(self).count() < usize::MAX,
        ensures
            final(self).count() == old(self).count() + 1,
            res@ == return_label(final(self).count()),
    {
        self.counter += 1;
        "Return_address.".to_owned().concat(decimal_string(self.counter).as_str())
    }
}

} // verus!
