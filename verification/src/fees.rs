//! The linear fee schedule and the fee it yields.

use vstd::prelude::*;

verus! {

/// A linear fee schedule. The three parts are combined additively.
#[derive(Clone, Copy, Debug, PartialEq, Eq, Structural)]
pub struct LinearFees {
    pub constant: u64,
    pub coefficient: u64,
    pub certificate: u64,
}

impl LinearFees {
    /// The fee owed by a transaction: `constant + coefficient`, plus
    /// `certificate` exactly when a certificate is attached.
    pub open spec fn total(self, has_certificate: bool) -> int {
        self.constant + self.coefficient + if has_certificate {
            self.certificate as int
        } else {
            0
        }
    }

    pub fn new(constant: u64, coefficient: u64, certificate: u64) -> (fees: LinearFees)
        ensures
            fees.constant == constant,
            fees.coefficient == coefficient,
            fees.certificate == certificate,
    {
        LinearFees { constant, coefficient, certificate }
    }

    /// Computes the fee. The sum of three 64-bit amounts always fits in 128 bits,
    /// so the computation is total.
    pub fn calculate(&self, has_certificate: bool) -> (fee: u128)
        ensures
            fee == self.total(has_certificate),
            has_certificate ==> fee == self.constant + self.coefficient + self.certificate,
            !has_certificate ==> fee == self.constant + self.coefficient,
    {
        let base: u128 = self.constant as u128 + self.coefficient as u128;
        if has_certificate {
            base + self.certificate as u128
        } else {
            base
        }
    }
}

} // verus!
