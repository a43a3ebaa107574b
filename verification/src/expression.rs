//! Polynomial expressions over the columns of a circuit.
use crate::field::{
    field_add, field_mul, field_neg, field_not, field_or, field_sub, in_field,
};
use crate::field::{lemma_mul_zero, lemma_sub_zero};
use crate::trace::Trace;
use vstd::arithmetic::div_mod::*;
use vstd::prelude::*;

verus! {

/// A column whose cells the prover fills in.
#[derive(Clone, Copy, Debug, PartialEq, Eq, Structural)]
pub struct AdviceColumn {
    pub index: usize,
}

/// A column whose cells are fixed with the circuit.
#[derive(Clone, Copy, Debug, PartialEq, Eq, Structural)]
pub struct FixedColumn {
    pub index: usize,
}

/// A column of zeros and ones, fixed with the circuit, that turns constraints on.
#[derive(Clone, Copy, Debug, PartialEq, Eq, Structural)]
pub struct Selector {
    pub index: usize,
}

/// A column that a lookup table can be made of.
#[derive(Clone, Copy, Debug, PartialEq, Eq, Structural)]
pub enum AnyColumn {
    Advice(AdviceColumn),
    Fixed(FixedColumn),
}

/// How many rows below the current one a cell lies.
#[derive(Clone, Copy, Debug, PartialEq, Eq, Structural)]
pub struct Rotation(pub i32);

impl Rotation {
    /// The current row.
    pub fn cur() -> (rotation: Rotation)
        ensures
            rotation == Rotation(0),
    {
        Rotation(0)
    }

    /// The next row.
    pub fn next() -> (rotation: Rotation)
        ensures
            rotation == Rotation(1),
    {
        Rotation(1)
    }
}

/// A polynomial in the cells around the current row.
#[derive(Debug, PartialEq, Eq)]
pub enum Expression {
    Constant(u64),
    Selector(Selector),
    Fixed(FixedColumn, Rotation),
    Advice(AdviceColumn, Rotation),
    Challenge(usize),
    Negated(Box<Expression>),
    Sum(Box<Expression>, Box<Expression>),
    Product(Box<Expression>, Box<Expression>),
}

impl Clone for Expression {
    fn clone(&self) -> (copy: Self)
        ensures
            copy == *self,
        decreases self,
    {
        match self {
            Expression::Constant(value) => Expression::Constant(*value),
            Expression::Selector(selector) => Expression::Selector(*selector),
            Expression::Fixed(column, rotation) => Expression::Fixed(*column, *rotation),
            Expression::Advice(column, rotation) => Expression::Advice(*column, *rotation),
            Expression::Challenge(index) => Expression::Challenge(*index),
            Expression::Negated(inner) => Expression::Negated(Box::new((&**inner).clone())),
            Expression::Sum(left, right) => Expression::Sum(
                Box::new((&**left).clone()),
                Box::new((&**right).clone()),
            ),
            Expression::Product(left, right) => Expression::Product(
                Box::new((&**left).clone()),
                Box::new((&**right).clone()),
            ),
        }
    }
}

impl Expression {
    /// The field element that the expression stands for at `row`.
    pub open spec fn eval(self, trace: Trace, row: int) -> int
        decreases self,
    {
        match self {
            Expression::Constant(value) => value as int % trace.modulus,
            Expression::Selector(selector) => if trace.selected(selector, row) {
                1
            } else {
                0
            },
            Expression::Fixed(column, rotation) => trace.fixed_at(column, row + rotation.0),
            Expression::Advice(column, rotation) => trace.advice_at(column, row + rotation.0),
            Expression::Challenge(index) => trace.challenge(index),
            Expression::Negated(inner) => field_neg(trace.modulus, inner.eval(trace, row)),
            Expression::Sum(left, right) => field_add(
                trace.modulus,
                left.eval(trace, row),
                right.eval(trace, row),
            ),
            Expression::Product(left, right) => field_mul(
                trace.modulus,
                left.eval(trace, row),
                right.eval(trace, row),
            ),
        }
    }

    /// Whether every cell that the expression names lies between `low` and `high` rows below
    /// the current one.
    pub open spec fn rotations_within(self, low: int, high: int) -> bool
        decreases self,
    {
        match self {
            Expression::Fixed(_, rotation) => low <= rotation.0 <= high,
            Expression::Advice(_, rotation) => low <= rotation.0 <= high,
            Expression::Negated(inner) => inner.rotations_within(low, high),
            Expression::Sum(left, right) => left.rotations_within(low, high)
                && right.rotations_within(low, high),
            Expression::Product(left, right) => left.rotations_within(low, high)
                && right.rotations_within(low, high),
            _ => true,
        }
    }

    /// A constant.
    pub fn constant(value: u64) -> (e: Expression)
        ensures
            e == Expression::Constant(value),
            forall|t: Trace, i: int| t.wf() ==> #[trigger] e.eval(t, i) == value,
    {
        let e = Expression::Constant(value);
        assert forall|t: Trace, i: int| t.wf() implies #[trigger] e.eval(t, i) == value by {
            lemma_small_mod(value as nat, t.modulus as nat);
        }
        e
    }

    /// Whether the selector is on in the current row.
    pub fn query_selector(selector: Selector) -> (e: Expression)
        ensures
            e == Expression::Selector(selector),
            forall|t: Trace, i: int| #[trigger]
                e.eval(t, i) == if t.selected(selector, i) {
                    1int
                } else {
                    0
                },
    {
        Expression::Selector(selector)
    }

    /// The cell of an advice column.
    pub fn query_advice(column: AdviceColumn, at: Rotation) -> (e: Expression)
        ensures
            e == Expression::Advice(column, at),
            forall|t: Trace, i: int| #[trigger] e.eval(t, i) == t.advice_at(column, i + at.0),
    {
        Expression::Advice(column, at)
    }

    /// The cell of a fixed column.
    pub fn query_fixed(column: FixedColumn, at: Rotation) -> (e: Expression)
        ensures
            e == Expression::Fixed(column, at),
            forall|t: Trace, i: int| #[trigger] e.eval(t, i) == t.fixed_at(column, i + at.0),
    {
        Expression::Fixed(column, at)
    }

    /// The cell of a column of either kind.
    pub fn query_any(column: AnyColumn, at: Rotation) -> (e: Expression)
        ensures
            e == any_query(column, at),
            forall|t: Trace, i: int| #[trigger] e.eval(t, i) == t.any_at(column, i + at.0),
    {
        match column {
            AnyColumn::Advice(column) => Expression::query_advice(column, at),
            AnyColumn::Fixed(column) => Expression::query_fixed(column, at),
        }
    }

    /// The sum of two expressions.
    pub fn plus(self, other: Expression) -> (e: Expression)
        ensures
            e == Expression::Sum(Box::new(self), Box::new(other)),
            forall|t: Trace, i: int| #[trigger]
                e.eval(t, i) == field_add(t.modulus, self.eval(t, i), other.eval(t, i)),
            forall|low: int, high: int| #[trigger]
                e.rotations_within(low, high) <==> self.rotations_within(low, high)
                    && other.rotations_within(low, high),
    {
        Expression::Sum(Box::new(self), Box::new(other))
    }

    /// The difference of two expressions.
    pub fn minus(self, other: Expression) -> (e: Expression)
        ensures
            e == difference(self, other),
            forall|t: Trace, i: int|
                t.wf() ==> {
                    &&& #[trigger] e.eval(t, i) == field_sub(
                        t.modulus,
                        self.eval(t, i),
                        other.eval(t, i),
                    )
                    &&& e.eval(t, i) == 0 <==> self.eval(t, i) == other.eval(t, i)
                },
            forall|low: int, high: int| #[trigger]
                e.rotations_within(low, high) <==> self.rotations_within(low, high)
                    && other.rotations_within(low, high),
    {
        let negated = Expression::Negated(Box::new(other));
        let e = Expression::Sum(Box::new(self), Box::new(negated));
        assert forall|t: Trace, i: int| t.wf() implies {
            &&& #[trigger] e.eval(t, i) == field_sub(t.modulus, self.eval(t, i), other.eval(t, i))
            &&& e.eval(t, i) == 0 <==> self.eval(t, i) == other.eval(t, i)
        } by {
            let a = self.eval(t, i);
            let b = other.eval(t, i);
            assert(negated.eval(t, i) == field_neg(t.modulus, b));
            assert(e.eval(t, i) == field_add(t.modulus, a, field_neg(t.modulus, b)));
            lemma_add_mod_noop_right(a, -b, t.modulus);
            lemma_eval_in_field(self, t, i);
            lemma_eval_in_field(other, t, i);
            lemma_sub_zero(t.modulus, a, b);
        }
        assert forall|low: int, high: int| #[trigger]
            e.rotations_within(low, high) <==> self.rotations_within(low, high)
                && other.rotations_within(low, high) by {
            assert(negated.rotations_within(low, high) == other.rotations_within(low, high));
        }
        e
    }

    /// The product of two expressions.
    pub fn times(self, other: Expression) -> (e: Expression)
        ensures
            e == Expression::Product(Box::new(self), Box::new(other)),
            forall|t: Trace, i: int|
                t.wf() ==> {
                    &&& #[trigger] e.eval(t, i) == field_mul(
                        t.modulus,
                        self.eval(t, i),
                        other.eval(t, i),
                    )
                    &&& e.eval(t, i) == 0 <==> self.eval(t, i) == 0 || other.eval(t, i) == 0
                },
            forall|low: int, high: int| #[trigger]
                e.rotations_within(low, high) <==> self.rotations_within(low, high)
                    && other.rotations_within(low, high),
    {
        let e = Expression::Product(Box::new(self), Box::new(other));
        assert forall|t: Trace, i: int| t.wf() implies {
            &&& #[trigger] e.eval(t, i) == field_mul(t.modulus, self.eval(t, i), other.eval(t, i))
            &&& e.eval(t, i) == 0 <==> self.eval(t, i) == 0 || other.eval(t, i) == 0
        } by {
            lemma_eval_in_field(self, t, i);
            lemma_eval_in_field(other, t, i);
            lemma_mul_zero(t.modulus, self.eval(t, i), other.eval(t, i));
        }
        e
    }
}

/// The query of a column of either kind.
pub open spec fn any_query(column: AnyColumn, at: Rotation) -> Expression {
    match column {
        AnyColumn::Advice(column) => Expression::Advice(column, at),
        AnyColumn::Fixed(column) => Expression::Fixed(column, at),
    }
}

/// The expression that stands for `left` minus `right`.
pub open spec fn difference(left: Expression, right: Expression) -> Expression {
    Expression::Sum(Box::new(left), Box::new(Expression::Negated(Box::new(right))))
}

/// An expression stands for a field element.
pub proof fn lemma_eval_in_field(e: Expression, t: Trace, i: int)
    requires
        t.wf(),
    ensures
        in_field(t.modulus, e.eval(t, i)),
{
    reveal_with_fuel(Expression::eval, 1);
}

/// The negation of a truth value: one minus the expression.
pub fn not(e: Expression) -> (r: Expression)
    ensures
        forall|t: Trace, i: int|
            t.wf() ==> {
                &&& #[trigger] r.eval(t, i) == field_not(t.modulus, e.eval(t, i))
                &&& r.eval(t, i) == 0 <==> e.eval(t, i) == 1
            },
        forall|low: int, high: int| #[trigger]
            r.rotations_within(low, high) <==> e.rotations_within(low, high),
{
    Expression::constant(1).minus(e)
}

/// The conjunction of two truth values: their product.
pub fn and(left: Expression, right: Expression) -> (r: Expression)
    ensures
        forall|t: Trace, i: int|
            t.wf() ==> {
                &&& #[trigger] r.eval(t, i) == field_mul(
                    t.modulus,
                    left.eval(t, i),
                    right.eval(t, i),
                )
                &&& r.eval(t, i) == 0 <==> left.eval(t, i) == 0 || right.eval(t, i) == 0
            },
        forall|low: int, high: int| #[trigger]
            r.rotations_within(low, high) <==> left.rotations_within(low, high)
                && right.rotations_within(low, high),
{
    left.times(right)
}

/// The disjunction of two truth values: not both of them are false.
pub fn or(left: Expression, right: Expression) -> (r: Expression)
    ensures
        forall|t: Trace, i: int|
            t.wf() ==> {
                &&& #[trigger] r.eval(t, i) == field_or(
                    t.modulus,
                    left.eval(t, i),
                    right.eval(t, i),
                )
                &&& r.eval(t, i) == 1 <==> left.eval(t, i) == 1 || right.eval(t, i) == 1
            },
        forall|low: int, high: int| #[trigger]
            r.rotations_within(low, high) <==> left.rotations_within(low, high)
                && right.rotations_within(low, high),
{
    let neither = and(not(left), not(right));
    let r = not(neither);
    assert forall|t: Trace, i: int| t.wf() implies #[trigger] r.eval(t, i) == 1 <==> left.eval(
        t,
        i,
    ) == 1 || right.eval(t, i) == 1 by {
        lemma_eval_in_field(neither, t, i);
        lemma_not_one(t.modulus, neither.eval(t, i));
    }
    r
}

/// One minus a field element is one only if the element is zero.
proof fn lemma_not_one(p: int, a: int)
    requires
        p > 1,
        in_field(p, a),
    ensures
        field_not(p, a) == 1 <==> a == 0,
{
    if a == 0 {
        lemma_small_mod(1, p as nat);
    } else if a == 1 {
        lemma_small_mod(0, p as nat);
    } else {
        lemma_mod_add_multiples_vanish(1 - a, p);
        lemma_small_mod((1 - a + p) as nat, p as nat);
    }
}

} // verus!
