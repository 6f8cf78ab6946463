//! Natural numbers of any size, for numberings that never run out.

use vstd::prelude::*;

verus! {

/// A natural number in base 2^64, lowest digit first. Zero has no digits.
#[derive(Debug, PartialEq, Eq)]
pub struct Natural {
    digits: Vec<u64>,
}

/// The number with the given digits.
spec fn value(digits: Seq<u64>) -> nat
    decreases digits.len(),
{
    if digits.len() == 0 {
        0
    } else {
        digits[0] as nat + 0x1_0000_0000_0000_0000 * value(digits.skip(1))
    }
}

impl Natural {
    /// The number.
    pub closed spec fn view(self) -> nat {
        value(self.digits@)
    }

    /// Zero.
    pub fn zero() -> (result: Natural)
        ensures
            result@ == 0,
    {
        Natural { digits: Vec::new() }
    }

    /// The same number again.
    pub fn copied(&self) -> (result: Natural)
        ensures
            result@ == self@,
    {
        let digits = self.digits.clone();
        assert(digits@ =~= self.digits@);
        Natural { digits }
    }

    /// Adds one.
    pub fn advance(&mut self)
        ensures
            final(self)@ == old(self)@ + 1,
    {
        assert(self.digits@.skip(0) =~= self.digits@);
        increment(&mut self.digits, 0);
        assert(self.digits@.skip(0) =~= self.digits@);
    }
}

/// Adds one to the number whose digits stand from place `at` on.
fn increment(digits: &mut Vec<u64>, at: usize)
    requires
        at <= old(digits)@.len(),
    ensures
        final(digits)@.len() >= old(digits)@.len(),
        value(final(digits)@.skip(at as int)) == value(old(digits)@.skip(at as int)) + 1,
        forall|i: int| 0 <= i < at ==> final(digits)@[i] == old(digits)@[i],
    decreases old(digits)@.len() - at,
{
    reveal_with_fuel(value, 2);
    let ghost before = digits@;
    if at == digits.len() {
        digits.push(1);
        assert(digits@.skip(at as int) =~= seq![1u64]);
        assert(before.skip(at as int) =~= seq![]);
        assert(seq![1u64].skip(1) =~= seq![]);
    } else {
        let digit: u64 = digits[at];
        assert(before.skip(at as int).skip(1) =~= before.skip(at + 1));
        if digit < u64::MAX {
            digits[at] = digit + 1;
            assert(digits@.skip(at as int).skip(1) =~= before.skip(at + 1));
        } else {
            digits[at] = 0;
            assert(digits@.skip(at + 1) =~= before.skip(at + 1));
            increment(digits, at + 1);
            assert(digits@.skip(at as int).skip(1) =~= digits@.skip(at + 1));
        }
    }
}

} // verus!
