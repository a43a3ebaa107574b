//! What the columns of a circuit hold, row by row, for stating what constraints mean.
use crate::expression::{AdviceColumn, AnyColumn, FixedColumn, Selector};
use crate::field::is_prime;
use vstd::prelude::*;

verus! {

/// The contents of a circuit's columns over the prime field of order `modulus`.
///
/// Rows are counted from the start of the region that the circuit is assigned to.
pub struct Trace {
    pub modulus: int,
    pub advice: spec_fn(AdviceColumn, int) -> int,
    pub fixed: spec_fn(FixedColumn, int) -> int,
    pub selectors: spec_fn(Selector, int) -> bool,
    pub challenges: spec_fn(usize) -> int,
}

impl Trace {
    /// The field's order is a prime above every `u64`, so that distinct `u64` values are
    /// distinct field elements.
    pub open spec fn wf(self) -> bool {
        is_prime(self.modulus) && self.modulus > u64::MAX
    }

    pub open spec fn advice_at(self, column: AdviceColumn, row: int) -> int {
        (self.advice)(column, row) % self.modulus
    }

    pub open spec fn fixed_at(self, column: FixedColumn, row: int) -> int {
        (self.fixed)(column, row) % self.modulus
    }

    pub open spec fn any_at(self, column: AnyColumn, row: int) -> int {
        match column {
            AnyColumn::Advice(column) => self.advice_at(column, row),
            AnyColumn::Fixed(column) => self.fixed_at(column, row),
        }
    }

    pub open spec fn selected(self, selector: Selector, row: int) -> bool {
        (self.selectors)(selector, row)
    }

    pub open spec fn challenge(self, index: usize) -> int {
        (self.challenges)(index) % self.modulus
    }
}

} // verus!
