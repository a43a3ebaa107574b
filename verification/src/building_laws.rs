//! What the parts that constraints are built from come to, in plain arithmetic and logic.
use crate::binary_number::{lemma_tag_decodes, BinaryNumberConfig, CopyDataType};
use crate::config::constrain_must_terminate;
use crate::constraint_builder::{BaseConstraintBuilder, Word};
use crate::constraint_system::Gate;
use crate::expression::{
    and, not, or, AdviceColumn, AnyColumn, Expression, FixedColumn, Rotation, Selector,
};
use crate::field::lemma_truth_values;
use crate::trace::Trace;
use vstd::prelude::*;

verus! {

/// An expression is worth what plain arithmetic makes of its parts, up to multiples of the
/// field's order.
pub proof fn expressions_are_arithmetic(left: Expression, right: Expression, t: Trace, i: int)
    requires
        t.wf(),
    ensures
        Expression::Sum(Box::new(left), Box::new(right)).eval(t, i) == (left.eval(t, i)
            + right.eval(t, i)) % t.modulus,
        Expression::Product(Box::new(left), Box::new(right)).eval(t, i) == (left.eval(t, i)
            * right.eval(t, i)) % t.modulus,
        Expression::Negated(Box::new(left)).eval(t, i) == (-left.eval(t, i)) % t.modulus,
{
}

/// A query is worth what its column holds as many rows below as it is rotated by, a constant its
/// number, and a selector one where it is on and zero elsewhere.
pub proof fn queries_read_their_cells(
    advice: AdviceColumn,
    fixed: FixedColumn,
    any: AnyColumn,
    selector: Selector,
    value: u64,
    at: Rotation,
    advice_query: Expression,
    fixed_query: Expression,
    any_query: Expression,
    selector_query: Expression,
    constant: Expression,
    t: Trace,
    i: int,
)
    requires
        call_ensures(Expression::query_advice, (advice, at), advice_query),
        call_ensures(Expression::query_fixed, (fixed, at), fixed_query),
        call_ensures(Expression::query_any, (any, at), any_query),
        call_ensures(Expression::query_selector, (selector,), selector_query),
        call_ensures(Expression::constant, (value,), constant),
        t.wf(),
    ensures
        advice_query.eval(t, i) == (t.advice)(advice, i + at.0) % t.modulus,
        fixed_query.eval(t, i) == (t.fixed)(fixed, i + at.0) % t.modulus,
        any_query.eval(t, i) == match any {
            AnyColumn::Advice(column) => (t.advice)(column, i + at.0) % t.modulus,
            AnyColumn::Fixed(column) => (t.fixed)(column, i + at.0) % t.modulus,
        },
        selector_query.eval(t, i) == if (t.selectors)(selector, i) {
            1int
        } else {
            0
        },
        constant.eval(t, i) == value,
{
}

/// Adding, subtracting and multiplying expressions is arithmetic on what they are worth, up to
/// multiples of the field's order.
pub proof fn combinations_are_arithmetic(
    left: Expression,
    right: Expression,
    sum: Expression,
    difference: Expression,
    product: Expression,
    t: Trace,
    i: int,
)
    requires
        call_ensures(Expression::plus, (left, right), sum),
        call_ensures(Expression::minus, (left, right), difference),
        call_ensures(Expression::times, (left, right), product),
        t.wf(),
    ensures
        sum.eval(t, i) == (left.eval(t, i) + right.eval(t, i)) % t.modulus,
        difference.eval(t, i) == (left.eval(t, i) - right.eval(t, i)) % t.modulus,
        product.eval(t, i) == (left.eval(t, i) * right.eval(t, i)) % t.modulus,
{
}

/// Where two expressions are truth values, their conjunction, disjunction and negation are the
/// truth values that logic has for them.
pub proof fn truth_values_are_logic(
    left: Expression,
    right: Expression,
    both: Expression,
    either: Expression,
    neither: Expression,
    t: Trace,
    i: int,
)
    requires
        call_ensures(and, (left, right), both),
        call_ensures(or, (left, right), either),
        call_ensures(not, (either,), neither),
        t.wf(),
        left.eval(t, i) == 0 || left.eval(t, i) == 1,
        right.eval(t, i) == 0 || right.eval(t, i) == 1,
    ensures
        both.eval(t, i) == 0 || both.eval(t, i) == 1,
        both.eval(t, i) == 1 <==> left.eval(t, i) == 1 && right.eval(t, i) == 1,
        either.eval(t, i) == 0 || either.eval(t, i) == 1,
        either.eval(t, i) == 1 <==> left.eval(t, i) == 1 || right.eval(t, i) == 1,
        neither.eval(t, i) == 1 - either.eval(t, i),
{
    lemma_truth_values(t.modulus, left.eval(t, i), right.eval(t, i));
    lemma_truth_values(t.modulus, either.eval(t, i), 0);
}

/// Different tags have different numbers, none of more than three bits, and a tag's bits spell
/// its number, the most significant first. Padding is zero.
pub proof fn tags_are_told_apart(
    tag: CopyDataType,
    other: CopyDataType,
    code: u64,
    other_code: u64,
    bits: [bool; 3],
)
    requires
        call_ensures(CopyDataType::code, (tag,), code),
        call_ensures(CopyDataType::code, (other,), other_code),
        call_ensures(CopyDataType::as_bits, (tag,), bits),
    ensures
        code == other_code <==> tag == other,
        code == 0 <==> tag == CopyDataType::Padding,
        code == (if bits@[0] {
            4int
        } else {
            0
        }) + (if bits@[1] {
            2int
        } else {
            0
        }) + (if bits@[2] {
            1int
        } else {
            0
        }),
{
}

/// Where the columns hold a tag's bits, their number is the tag's, and the comparison with a tag
/// is one if it is that tag and zero if not.
pub proof fn held_tags_are_recognized(
    config: BinaryNumberConfig,
    at: Rotation,
    tag: CopyDataType,
    other: CopyDataType,
    code: u64,
    value: Expression,
    constant: Expression,
    equal: Expression,
    t: Trace,
    i: int,
)
    requires
        call_ensures(CopyDataType::code, (tag,), code),
        call_ensures(BinaryNumberConfig::value, (&config, at), value),
        call_ensures(BinaryNumberConfig::constant_expr, (&config, tag), constant),
        call_ensures(BinaryNumberConfig::value_equals, (&config, other, at), equal),
        t.wf(),
        config.holds_tag(t, i + at.0, tag),
    ensures
        value.eval(t, i) == code,
        constant.eval(t, i) == code,
        equal.eval(t, i) == if tag == other {
            1int
        } else {
            0
        },
{
    lemma_tag_decodes(config, t, i + at.0, tag, other);
}

/// A demand that an event goes on is met in a row exactly if the row is padding or the row two
/// below is enabled; it is added to the demands that were there.
pub proof fn events_must_go_on_or_end(
    cb: &mut BaseConstraintBuilder,
    q_enable: FixedColumn,
    config: BinaryNumberConfig,
    tag: CopyDataType,
    t: Trace,
    i: int,
)
    requires
        call_ensures(constrain_must_terminate, (cb, q_enable, &config), ()),
        t.wf(),
        config.holds_tag(t, i, tag),
    ensures
        final(cb).constraints@.len() == old(cb).constraints@.len() + 1,
        old(cb).constraints@.is_prefix_of(final(cb).constraints@),
        final(cb).constraints@.last().name@ == "the next step is enabled"@,
        final(cb).constraints@.last().poly.eval(t, i) == 0 <==> tag == CopyDataType::Padding
            || t.fixed_at(q_enable, i + 2) == 1,
{
    lemma_tag_decodes(config, t, i, tag, tag);
    let added = final(cb).constraints@.last();
    assert(added == final(cb).constraints@[old(cb).constraints@.len() as int]);
    assert(added.holds(t, i) <==> added.poly.eval(t, i) == 0);
}

/// A demand for zero is met in a row exactly if the expression is zero there or the condition is.
pub proof fn required_zeros_are_zero(
    cb: &mut BaseConstraintBuilder,
    name: &'static str,
    constraint: Expression,
    t: Trace,
    i: int,
)
    requires
        call_ensures(BaseConstraintBuilder::require_zero, (cb, name, constraint), ()),
        t.wf(),
    ensures
        final(cb).condition == old(cb).condition,
        final(cb).constraints@.len() == old(cb).constraints@.len() + 1,
        old(cb).constraints@.is_prefix_of(final(cb).constraints@),
        final(cb).constraints@.last().name@ == name@,
        final(cb).constraints@.last().poly.eval(t, i) == 0 <==> match old(cb).condition {
            Some(condition) => condition.eval(t, i) == 0 || constraint.eval(t, i) == 0,
            None => constraint.eval(t, i) == 0,
        },
{
    let added = final(cb).constraints@.last();
    assert(added == final(cb).constraints@[old(cb).constraints@.len() as int]);
    assert(added.holds(t, i) <==> added.poly.eval(t, i) == 0);
}

/// A demand for equality is met in a row exactly if the expressions are equal there or the
/// condition is zero.
pub proof fn required_equals_are_equal(
    cb: &mut BaseConstraintBuilder,
    name: &'static str,
    lhs: Expression,
    rhs: Expression,
    t: Trace,
    i: int,
)
    requires
        call_ensures(BaseConstraintBuilder::require_equal, (cb, name, lhs, rhs), ()),
        t.wf(),
    ensures
        final(cb).condition == old(cb).condition,
        final(cb).constraints@.len() == old(cb).constraints@.len() + 1,
        old(cb).constraints@.is_prefix_of(final(cb).constraints@),
        final(cb).constraints@.last().name@ == name@,
        final(cb).constraints@.last().poly.eval(t, i) == 0 <==> match old(cb).condition {
            Some(condition) => condition.eval(t, i) == 0 || lhs.eval(t, i) == rhs.eval(t, i),
            None => lhs.eval(t, i) == rhs.eval(t, i),
        },
{
    let added = final(cb).constraints@.last();
    assert(added == final(cb).constraints@[old(cb).constraints@.len() as int]);
    assert(added.holds(t, i) <==> added.poly.eval(t, i) == 0);
}

/// A demand for a truth value is met in a row exactly if the expression is zero or one there or
/// the condition is zero.
pub proof fn required_booleans_are_boolean(
    cb: &mut BaseConstraintBuilder,
    name: &'static str,
    value: Expression,
    t: Trace,
    i: int,
)
    requires
        call_ensures(BaseConstraintBuilder::require_boolean, (cb, name, value), ()),
        t.wf(),
    ensures
        final(cb).condition == old(cb).condition,
        final(cb).constraints@.len() == old(cb).constraints@.len() + 1,
        old(cb).constraints@.is_prefix_of(final(cb).constraints@),
        final(cb).constraints@.last().name@ == name@,
        final(cb).constraints@.last().poly.eval(t, i) == 0 <==> match old(cb).condition {
            Some(condition) => condition.eval(t, i) == 0 || value.eval(t, i) == 0 || value.eval(t, i) == 1,
            None => value.eval(t, i) == 0 || value.eval(t, i) == 1,
        },
{
    let added = final(cb).constraints@.last();
    assert(added == final(cb).constraints@[old(cb).constraints@.len() as int]);
    assert(added.holds(t, i) <==> added.poly.eval(t, i) == 0);
}

/// Two demands for the equality of words are both met in a row exactly if both limbs are equal
/// there or the condition is zero.
pub proof fn required_words_are_equal(
    cb: &mut BaseConstraintBuilder,
    name: &'static str,
    lhs: Word<Expression>,
    rhs: Word<Expression>,
    t: Trace,
    i: int,
)
    requires
        call_ensures(BaseConstraintBuilder::require_equal_word, (cb, name, lhs, rhs), ()),
        t.wf(),
    ensures
        final(cb).condition == old(cb).condition,
        final(cb).constraints@.len() == old(cb).constraints@.len() + 2,
        old(cb).constraints@.is_prefix_of(final(cb).constraints@),
        ({
            let n = old(cb).constraints@.len() as int;
            let after = final(cb).constraints@;
            let waived = old(cb).condition matches Some(condition) && condition.eval(t, i) == 0;
            &&& after[n].name@ == name@
            &&& after[n + 1].name@ == name@
            &&& after[n].poly.eval(t, i) == 0 <==> waived || lhs.lo.eval(t, i) == rhs.lo.eval(t, i)
            &&& after[n + 1].poly.eval(t, i) == 0 <==> waived || lhs.hi.eval(t, i) == rhs.hi.eval(
                t,
                i,
            )
        }),
{
    let n = old(cb).constraints@.len() as int;
    let after = final(cb).constraints@;
    assert(after.drop_last()[n] == after[n]);
    assert(after[n].holds(t, i) <==> after[n].poly.eval(t, i) == 0);
    assert(after[n + 1].holds(t, i) <==> after[n + 1].poly.eval(t, i) == 0);
    assert forall|j: int| 0 <= j < n implies #[trigger] after[j] == old(cb).constraints@[j] by {
        assert(after.drop_last()[j] == after[j]);
    }
}

/// A gate has the demands that were made, in order and under their names, each met in a row
/// exactly if it was met or the selector is zero.
pub proof fn gates_wait_for_their_selector(
    cb: BaseConstraintBuilder,
    name: &'static str,
    selector: Expression,
    gate: Gate,
    j: int,
    t: Trace,
    i: int,
)
    requires
        call_ensures(BaseConstraintBuilder::gate, (cb, name, selector), gate),
        t.wf(),
        0 <= j < cb.constraints@.len(),
    ensures
        gate.name == name,
        gate.constraints@.len() == cb.constraints@.len(),
        gate.constraints@[j].name == cb.constraints@[j].name,
        gate.constraints@[j].poly.eval(t, i) == 0 <==> selector.eval(t, i) == 0
            || cb.constraints@[j].poly.eval(t, i) == 0,
{
    assert(gate.constraints@[j].holds(t, i) <==> gate.constraints@[j].poly.eval(t, i) == 0);
}

} // verus!
