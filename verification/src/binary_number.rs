//! A tag that is spread over one column per bit.
use crate::expression::{not, AdviceColumn, Expression, Rotation};
use crate::field::{field_mul, field_not, lemma_truth_values};
use crate::trace::Trace;
use vstd::arithmetic::div_mod::*;
use vstd::prelude::*;

verus! {

/// Where the bytes of a copy come from or go to.
#[derive(Clone, Copy, Debug, PartialEq, Eq, Structural)]
pub enum CopyDataType {
    /// The row belongs to no copy event.
    Padding,
    /// The bytecode table.
    Bytecode,
    /// The memory of a call.
    Memory,
    /// The calldata of a transaction.
    TxCalldata,
    /// The log of a transaction.
    TxLog,
    /// The accumulator of a random linear combination.
    RlcAcc,
}

impl CopyDataType {
    /// The number that the tag is encoded as.
    pub open spec fn spec_code(self) -> u64 {
        match self {
            CopyDataType::Padding => 0,
            CopyDataType::Bytecode => 1,
            CopyDataType::Memory => 2,
            CopyDataType::TxCalldata => 3,
            CopyDataType::TxLog => 4,
            CopyDataType::RlcAcc => 5,
        }
    }

    /// The bits of the tag's number, the most significant first.
    pub open spec fn spec_bits(self) -> Seq<bool> {
        let code = self.spec_code() as int;
        seq![code / 4 % 2 == 1, code / 2 % 2 == 1, code % 2 == 1]
    }

    /// The number that the tag is encoded as.
    pub fn code(self) -> (code: u64)
        ensures
            code == self.spec_code(),
    {
        match self {
            CopyDataType::Padding => 0,
            CopyDataType::Bytecode => 1,
            CopyDataType::Memory => 2,
            CopyDataType::TxCalldata => 3,
            CopyDataType::TxLog => 4,
            CopyDataType::RlcAcc => 5,
        }
    }

    /// The bits of the tag's number, the most significant first.
    pub fn as_bits(self) -> (bits: [bool; 3])
        ensures
            bits@ == self.spec_bits(),
    {
        let code = self.code();
        [code / 4 % 2 == 1, code / 2 % 2 == 1, code % 2 == 1]
    }
}

/// The columns that hold the bits of a tag, the most significant first.
#[derive(Clone, Copy, Debug, PartialEq, Eq)]
pub struct BinaryNumberConfig {
    pub bits: [AdviceColumn; 3],
}

/// `bit` where a one is wanted, and one minus `bit` where a zero is.
pub open spec fn literal(p: int, bit: int, wanted: bool) -> int {
    if wanted {
        bit
    } else {
        field_not(p, bit)
    }
}

/// `bit` where a one is wanted, and one minus `bit` where a zero is.
fn literal_expr(bit: Expression, wanted: bool) -> (e: Expression)
    ensures
        forall|t: Trace, i: int|
            t.wf() ==> #[trigger] e.eval(t, i) == literal(t.modulus, bit.eval(t, i), wanted),
        forall|low: int, high: int| #[trigger]
            e.rotations_within(low, high) <==> bit.rotations_within(low, high),
{
    if wanted {
        bit
    } else {
        not(bit)
    }
}

impl BinaryNumberConfig {
    /// What the column of the `k`-th bit holds at `row`.
    pub open spec fn bit_at(self, t: Trace, row: int, k: int) -> int {
        t.advice_at(self.bits@[k], row)
    }

    /// The number that the bits make up at `row`.
    pub open spec fn value_at(self, t: Trace, row: int) -> int {
        (4 * self.bit_at(t, row, 0) + 2 * self.bit_at(t, row, 1) + self.bit_at(t, row, 2))
            % t.modulus
    }

    /// The product that is one where the bits at `row` are those of `tag`, and zero where they
    /// are those of another tag.
    pub open spec fn equals_at(self, t: Trace, row: int, tag: CopyDataType) -> int {
        let bits = tag.spec_bits();
        field_mul(
            t.modulus,
            field_mul(
                t.modulus,
                literal(t.modulus, self.bit_at(t, row, 0), bits[0]),
                literal(t.modulus, self.bit_at(t, row, 1), bits[1]),
            ),
            literal(t.modulus, self.bit_at(t, row, 2), bits[2]),
        )
    }

    /// Whether the columns hold the bits of `tag` at `row`.
    pub open spec fn holds_tag(self, t: Trace, row: int, tag: CopyDataType) -> bool {
        forall|k: int|
            0 <= k < 3 ==> #[trigger] self.bit_at(t, row, k) == if tag.spec_bits()[k] {
                1int
            } else {
                0
            }
    }

    /// The number that the bits make up.
    pub fn value(&self, at: Rotation) -> (e: Expression)
        ensures
            forall|t: Trace, i: int|
                t.wf() ==> #[trigger] e.eval(t, i) == self.value_at(t, i + at.0),
            forall|low: int, high: int|
                low <= at.0 <= high ==> #[trigger] e.rotations_within(low, high),
    {
        let b0 = Expression::query_advice(self.bits[0], at);
        let b1 = Expression::query_advice(self.bits[1], at);
        let b2 = Expression::query_advice(self.bits[2], at);
        let fours = b0.times(Expression::constant(4));
        let twos = b1.times(Expression::constant(2));
        let upper = fours.plus(twos);
        let e = upper.plus(b2);
        assert forall|t: Trace, i: int| t.wf() implies #[trigger] e.eval(t, i) == self.value_at(
            t,
            i + at.0,
        ) by {
            let p = t.modulus;
            let (x, y, z) = (b0.eval(t, i), b1.eval(t, i), b2.eval(t, i));
            assert(fours.eval(t, i) == (x * 4) % p);
            assert(twos.eval(t, i) == (y * 2) % p);
            lemma_add_mod_noop(x * 4, y * 2, p);
            assert(upper.eval(t, i) == (x * 4 + y * 2) % p);
            lemma_add_mod_noop_right(z, x * 4 + y * 2, p);
        }
        e
    }

    /// One where the bits are those of `tag`, and zero where they are those of another tag.
    pub fn value_equals(&self, tag: CopyDataType, at: Rotation) -> (e: Expression)
        ensures
            forall|t: Trace, i: int|
                t.wf() ==> #[trigger] e.eval(t, i) == self.equals_at(t, i + at.0, tag),
            forall|low: int, high: int|
                low <= at.0 <= high ==> #[trigger] e.rotations_within(low, high),
    {
        let bits = tag.as_bits();
        let l0 = literal_expr(Expression::query_advice(self.bits[0], at), bits[0]);
        let l1 = literal_expr(Expression::query_advice(self.bits[1], at), bits[1]);
        let l2 = literal_expr(Expression::query_advice(self.bits[2], at), bits[2]);
        l0.times(l1).times(l2)
    }

    /// The number that `tag` is encoded as.
    pub fn constant_expr(&self, tag: CopyDataType) -> (e: Expression)
        ensures
            e == Expression::Constant(tag.spec_code()),
            forall|t: Trace, i: int| t.wf() ==> #[trigger] e.eval(t, i) == tag.spec_code(),
    {
        Expression::constant(tag.code())
    }
}

/// Where the columns hold the bits of `tag`, their number is that of `tag`, and the comparison
/// with `other` comes out as one if `other` is `tag` and as zero if not.
pub proof fn lemma_tag_decodes(
    config: BinaryNumberConfig,
    t: Trace,
    row: int,
    tag: CopyDataType,
    other: CopyDataType,
)
    requires
        t.wf(),
        config.holds_tag(t, row, tag),
    ensures
        config.value_at(t, row) == tag.spec_code(),
        config.equals_at(t, row, other) == if other == tag {
            1int
        } else {
            0
        },
{
    let p = t.modulus;
    assert(config.bit_at(t, row, 0) == if tag.spec_bits()[0] {
        1int
    } else {
        0
    });
    assert(config.bit_at(t, row, 1) == if tag.spec_bits()[1] {
        1int
    } else {
        0
    });
    assert(config.bit_at(t, row, 2) == if tag.spec_bits()[2] {
        1int
    } else {
        0
    });
    lemma_small_mod(tag.spec_code() as nat, p as nat);
    let bits = other.spec_bits();
    let (b0, b1, b2) = (
        config.bit_at(t, row, 0),
        config.bit_at(t, row, 1),
        config.bit_at(t, row, 2),
    );
    lemma_truth_values(p, b0, b1);
    lemma_truth_values(p, b1, b2);
    lemma_truth_values(p, b2, b0);
    let l0 = literal(p, b0, bits[0]);
    let l1 = literal(p, b1, bits[1]);
    lemma_truth_values(p, l0, l1);
    lemma_truth_values(p, field_mul(p, l0, l1), literal(p, b2, bits[2]));
}

} // verus!
