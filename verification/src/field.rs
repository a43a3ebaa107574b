//! Arithmetic in a prime field, as the mathematics that the constraints are stated in.
//!
//! A field element is an integer between zero and the field's order.
use vstd::arithmetic::div_mod::*;
use vstd::arithmetic::mul::*;
use vstd::prelude::*;

verus! {

/// Whether `p` is a prime number.
pub open spec fn is_prime(p: int) -> bool {
    p > 1 && forall|d: int| 1 < d < p ==> #[trigger] (p % d) != 0
}

/// Whether `x` is an element of the field of order `p`.
pub open spec fn in_field(p: int, x: int) -> bool {
    0 <= x < p
}

pub open spec fn field_add(p: int, a: int, b: int) -> int {
    (a + b) % p
}

pub open spec fn field_sub(p: int, a: int, b: int) -> int {
    (a - b) % p
}

pub open spec fn field_mul(p: int, a: int, b: int) -> int {
    (a * b) % p
}

pub open spec fn field_neg(p: int, a: int) -> int {
    (-a) % p
}

/// The negation of a truth value: one minus `a`.
pub open spec fn field_not(p: int, a: int) -> int {
    (1 - a) % p
}

/// The disjunction of two truth values: not both of them are false.
pub open spec fn field_or(p: int, a: int, b: int) -> int {
    field_not(p, field_mul(p, field_not(p, a), field_not(p, b)))
}

/// Whether `a` is one of the two truth values.
pub open spec fn is_truth_value(a: int) -> bool {
    a == 0 || a == 1
}

/// A product of field elements is zero only if one of them is.
pub proof fn lemma_mul_zero(p: int, a: int, b: int)
    requires
        is_prime(p),
        in_field(p, a),
        in_field(p, b),
    ensures
        field_mul(p, a, b) == 0 <==> a == 0 || b == 0,
{
    if a != 0 && b != 0 {
        lemma_no_zero_divisor(p, a, b);
    } else {
        assert(a * b == 0) by (nonlinear_arith)
            requires
                a == 0 || b == 0,
        ;
        lemma_small_mod(0, p as nat);
    }
}

/// Descends from `a` to `p % a` as Euclid's algorithm does, until one is left.
proof fn lemma_no_zero_divisor(p: int, a: int, b: int)
    requires
        is_prime(p),
        0 < a < p,
        0 < b < p,
    ensures
        (a * b) % p != 0,
    decreases a,
{
    if a == 1 {
        lemma_small_mod(b as nat, p as nat);
    } else {
        let r = p % a;
        let q = p / a;
        assert(p % a != 0);
        lemma_fundamental_div_mod(p, a);
        lemma_mod_bound(p, a);
        lemma_no_zero_divisor(p, r, b);
        if (a * b) % p == 0 {
            assert(p * b + (-q) * (a * b) == r * b) by (nonlinear_arith)
                requires
                    p == a * q + r,
            ;
            lemma_mul_mod_noop_right(-q, a * b, p);
            assert(((-q) * (a * b)) % p == 0) by {
                assert((-q) * 0 == 0);
                lemma_small_mod(0, p as nat);
            }
            lemma_mod_multiples_vanish(b, (-q) * (a * b), p);
        }
    }
}

/// A difference of field elements is zero only if they are equal.
pub proof fn lemma_sub_zero(p: int, a: int, b: int)
    requires
        p > 0,
        in_field(p, a),
        in_field(p, b),
    ensures
        field_sub(p, a, b) == 0 <==> a == b,
{
    if a >= b {
        lemma_small_mod((a - b) as nat, p as nat);
    } else {
        lemma_mod_add_multiples_vanish(a - b, p);
        lemma_small_mod((a - b + p) as nat, p as nat);
    }
}

/// On truth values the arithmetic is that of logic.
pub proof fn lemma_truth_values(p: int, a: int, b: int)
    requires
        p > 1,
        is_truth_value(a),
        is_truth_value(b),
    ensures
        field_not(p, a) == 1 - a,
        field_mul(p, a, b) == if a == 1 && b == 1 {
            1int
        } else {
            0
        },
        field_or(p, a, b) == if a == 1 || b == 1 {
            1int
        } else {
            0
        },
{
    lemma_small_mod(0, p as nat);
    lemma_small_mod(1, p as nat);
    let (x, y) = (field_not(p, a), field_not(p, b));
    assert(a * b == if a == 1 && b == 1 {
        1int
    } else {
        0
    }) by (nonlinear_arith)
        requires
            is_truth_value(a),
            is_truth_value(b),
    ;
    assert(x * y == if x == 1 && y == 1 {
        1int
    } else {
        0
    }) by (nonlinear_arith)
        requires
            is_truth_value(x),
            is_truth_value(y),
    ;
}

} // verus!
