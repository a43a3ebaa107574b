//! What the circuit accepts: regions made of copy events and padding.
use crate::binary_number::{lemma_tag_decodes, CopyDataType};
use crate::config::{
    id_hi_clauses, last_step_clauses, verify_row_clauses, verify_step_clauses, CopyCircuitConfig,
};
use crate::constraint_system::all_met;
use crate::expression::Expression;
use crate::field::{field_add, field_mul, field_sub, is_truth_value, lemma_truth_values};
use crate::soundness::{accesses, gates_met, is_access, laid_out, lemma_rw_diff, tag_valid};
use crate::trace::Trace;
use vstd::arithmetic::div_mod::*;
use vstd::prelude::*;

verus! {

/// Whether the row holds what a padding row is assigned.
pub open spec fn is_padding_row(c: CopyCircuitConfig, t: Trace, i: int) -> bool {
    &&& c.copy_table.tag.holds_tag(t, i, CopyDataType::Padding)
    &&& c.first_at(t, i) == 0
    &&& c.last_at(t, i) == 0
    &&& c.id_lo_at(t, i) == 0
    &&& c.id_hi_at(t, i) == 0
    &&& c.addr_at(t, i) == 0
    &&& c.src_addr_end_at(t, i) == 1
    &&& c.bytes_left_at(t, i) == 0
    &&& c.value_at(t, i) == 0
    &&& c.acc_at(t, i) == 0
    &&& c.rlc_acc_at(t, i) == 0
    &&& c.code_at(t, i) == 0
    &&& c.pad_at(t, i) == 0
    &&& c.rw_counter_at(t, i) == 0
    &&& c.rwc_inc_left_at(t, i) == 0
    &&& c.lt_at(t, i) == 1
}

/// A product of field elements with a zero among them is zero.
proof fn lemma_mul_by_zero(p: int, a: int)
    requires
        p > 0,
    ensures
        field_mul(p, 0, a) == 0,
        field_mul(p, a, 0) == 0,
{
    assert(0 * a == 0 && a * 0 == 0) by (nonlinear_arith);
    lemma_small_mod(0, p as nat);
}

/// Padding passes all gates, as long as it is followed by padding: by one row of it after a write
/// row, and by two after a read row.
pub proof fn padding_is_accepted(c: CopyCircuitConfig, r: Expression, t: Trace, n: int, i: int)
    requires
        t.wf(),
        laid_out(c, t, n),
        0 <= i < n,
        is_padding_row(c, t, i),
        is_padding_row(c, t, i + 1),
        i % 2 == 0 ==> is_padding_row(c, t, i + 2),
    ensures
        gates_met(c, r, t, i),
{
    let p = t.modulus;
    let tag = c.copy_table.tag;
    lemma_tag_decodes(tag, t, i, CopyDataType::Padding, CopyDataType::Padding);
    lemma_tag_decodes(tag, t, i, CopyDataType::Padding, CopyDataType::Memory);
    lemma_tag_decodes(tag, t, i, CopyDataType::Padding, CopyDataType::TxLog);
    lemma_tag_decodes(tag, t, i, CopyDataType::Padding, CopyDataType::TxCalldata);
    lemma_truth_values(p, 0, 0);
    lemma_truth_values(p, 1, 0);
    lemma_truth_values(p, 0, 1);
    lemma_small_mod(0, p as nat);
    lemma_small_mod(1, p as nat);
    lemma_mul_by_zero(p, r.eval(t, i));
    assert(t.fixed_at(c.q_enable, i) == 1);
    assert(c.rw_diff_at(t, i) == 0);
    assert(all_met(verify_row_clauses(c), t, i));
    assert(all_met(last_step_clauses(c), t, i));
    assert(all_met(verify_step_clauses(c, r), t, i));
    assert(all_met(id_hi_clauses(c, CopyDataType::Memory), t, i));
    assert(all_met(id_hi_clauses(c, CopyDataType::TxLog), t, i));
    assert(all_met(id_hi_clauses(c, CopyDataType::TxCalldata), t, i));
}

/// Whether the row `i` is what a copy of `steps` bytes from `src` to `dst`, whose rows begin at
/// `start`, has there.
pub open spec fn is_copy_row(
    c: CopyCircuitConfig,
    r: Expression,
    t: Trace,
    start: int,
    steps: int,
    src: CopyDataType,
    dst: CopyDataType,
    i: int,
) -> bool {
    let p = t.modulus;
    let is_read = i % 2 == 0;
    let side = if is_read {
        start
    } else {
        start + 1
    };
    let tag = if is_read {
        src
    } else {
        dst
    };
    let j = (i - start) / 2;
    &&& c.copy_table.tag.holds_tag(t, i, tag)
    &&& c.first_at(t, i) == if i == start {
        1int
    } else {
        0
    }
    &&& c.last_at(t, i) == if i == start + 2 * steps - 1 {
        1int
    } else {
        0
    }
    &&& c.id_lo_at(t, i) == c.id_lo_at(t, side)
    &&& c.id_hi_at(t, i) == c.id_hi_at(t, side)
    &&& c.addr_at(t, i) == field_add(p, c.addr_at(t, side), j)
    &&& c.src_addr_end_at(t, i) == c.src_addr_end_at(t, side)
    &&& c.rlc_acc_at(t, i) == c.rlc_acc_at(t, start)
    &&& c.rw_counter_at(t, i) == field_add(
        p,
        c.rw_counter_at(t, start),
        accesses(c, t, start, i - start),
    )
    &&& c.rwc_inc_left_at(t, i) == field_sub(
        p,
        accesses(c, t, start, 2 * steps),
        accesses(c, t, start, i - start),
    )
    &&& if is_read {
        &&& c.bytes_left_at(t, i) == (steps - j) % p
        &&& is_truth_value(c.lt_at(t, i))
        &&& c.pad_at(t, i) == 1 - c.lt_at(t, i)
        &&& c.pad_at(t, i) == 1 ==> c.value_at(t, i) == 0
        &&& c.acc_at(t, i) == if i == start {
            c.value_at(t, i)
        } else {
            field_add(p, field_mul(p, c.acc_at(t, i - 2), r.eval(t, i - 2)), c.value_at(t, i))
        }
    } else {
        &&& c.pad_at(t, i) == 0
        &&& c.value_at(t, i) == c.value_at(t, i - 1)
        &&& c.acc_at(t, i) == c.acc_at(t, i - 1)
    }
    &&& (tag == CopyDataType::Memory || tag == CopyDataType::TxLog || tag
        == CopyDataType::TxCalldata) && c.pad_at(t, i) == 0 ==> c.id_hi_at(t, i) == 0
}

/// Whether the rows from `start` on are a copy of `steps` bytes from `src` to `dst`.
pub open spec fn is_copy(
    c: CopyCircuitConfig,
    r: Expression,
    t: Trace,
    start: int,
    steps: int,
    src: CopyDataType,
    dst: CopyDataType,
) -> bool {
    &&& 0 <= start
    &&& start % 2 == 0
    &&& steps >= 1
    &&& src != CopyDataType::Padding
    &&& dst != CopyDataType::Padding
    &&& forall|i: int|
        start <= i < start + 2 * steps ==> #[trigger] is_copy_row(
            c,
            r,
            t,
            start,
            steps,
            src,
            dst,
            i,
        )
    &&& (src == CopyDataType::Memory && dst == CopyDataType::Bytecode) || dst
        == CopyDataType::RlcAcc ==> c.rlc_acc_at(t, start) == c.acc_at(t, start + 2 * steps - 1)
}

/// The rows of a copy pass all gates, as long as the next two rows are enabled and the first of
/// them does not end an event.
pub proof fn copy_is_accepted(
    c: CopyCircuitConfig,
    r: Expression,
    t: Trace,
    n: int,
    start: int,
    steps: int,
    src: CopyDataType,
    dst: CopyDataType,
    i: int,
)
    requires
        t.wf(),
        laid_out(c, t, n),
        is_copy(c, r, t, start, steps, src, dst),
        start + 2 * steps + 2 <= n,
        c.last_at(t, start + 2 * steps) == 0,
        start <= i < start + 2 * steps,
    ensures
        gates_met(c, r, t, i),
{
    let p = t.modulus;
    let config = c.copy_table.tag;
    let tag = if i % 2 == 0 {
        src
    } else {
        dst
    };
    let end = start + 2 * steps;
    assert(is_copy_row(c, r, t, start, steps, src, dst, i));
    if i + 1 < end {
        assert(is_copy_row(c, r, t, start, steps, src, dst, i + 1));
    }
    if i + 2 < end {
        assert(is_copy_row(c, r, t, start, steps, src, dst, i + 2));
    }
    lemma_tag_decodes(config, t, i, tag, CopyDataType::Padding);
    lemma_tag_decodes(config, t, i, tag, CopyDataType::Memory);
    lemma_tag_decodes(config, t, i, tag, CopyDataType::TxLog);
    lemma_tag_decodes(config, t, i, tag, CopyDataType::TxCalldata);
    lemma_truth_values(p, 0, 0);
    lemma_truth_values(p, 1, 0);
    assert(t.fixed_at(c.q_enable, i) == 1);
    assert(t.fixed_at(c.q_enable, i + 1) == 1);
    assert(t.fixed_at(c.q_enable, i + 2) == 1);
    assert(tag_valid(c, t, i));
    lemma_rw_diff(c, t, i);
    let diff = if is_access(c, t, i) {
        1int
    } else {
        0
    };
    let so_far = accesses(c, t, start, i - start);
    let total = accesses(c, t, start, 2 * steps);
    assert(accesses(c, t, start, i + 1 - start) == so_far + diff);
    let j = (i - start) / 2;
    let side = if i % 2 == 0 {
        start
    } else {
        start + 1
    };
    lemma_add_mod_noop_right(1, c.addr_at(t, side) + j, p);
    lemma_add_mod_noop_right(diff, c.rw_counter_at(t, start) + so_far, p);
    lemma_add_mod_noop_right(-diff, total - so_far, p);
    lemma_small_mod(diff as nat, p as nat);
    lemma_small_mod(1, p as nat);
    lemma_add_mod_noop_right(1, steps - j - 1, p);
    assert((i + 2 - start) / 2 == j + 1);
    assert(all_met(verify_row_clauses(c), t, i));
    assert(all_met(verify_step_clauses(c, r), t, i));
    assert(all_met(id_hi_clauses(c, CopyDataType::Memory), t, i));
    assert(all_met(id_hi_clauses(c, CopyDataType::TxLog), t, i));
    assert(all_met(id_hi_clauses(c, CopyDataType::TxCalldata), t, i));
    if i + 1 < end {
        let below = if i % 2 == 0 {
            dst
        } else {
            src
        };
        lemma_tag_decodes(config, t, i + 1, below, CopyDataType::Bytecode);
        lemma_tag_decodes(config, t, i + 1, below, CopyDataType::RlcAcc);
        lemma_truth_values(
            p,
            c.tag_is(t, i, CopyDataType::Memory),
            c.tag_is(t, i + 1, CopyDataType::Bytecode),
        );
    }
    assert(all_met(last_step_clauses(c), t, i));
}

/// A row that is neither enabled nor a step passes all gates, whatever it holds.
pub proof fn disabled_rows_are_accepted(c: CopyCircuitConfig, r: Expression, t: Trace, i: int)
    requires
        !c.enabled(t, i),
        !c.is_step(t, i),
    ensures
        gates_met(c, r, t, i),
{
    assert(all_met(verify_row_clauses(c), t, i));
    assert(all_met(last_step_clauses(c), t, i));
    assert(all_met(verify_step_clauses(c, r), t, i));
    assert(all_met(id_hi_clauses(c, CopyDataType::Memory), t, i));
    assert(all_met(id_hi_clauses(c, CopyDataType::TxLog), t, i));
    assert(all_met(id_hi_clauses(c, CopyDataType::TxCalldata), t, i));
}

} // verus!
