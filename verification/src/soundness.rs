//! What every accepted trace is known to hold: each copy event copies its bytes.
use crate::assignment::UNUSED_ROWS;
use crate::binary_number::{lemma_tag_decodes, CopyDataType};
use crate::config::{
    id_hi_clauses, last_step_clauses, verify_row_clauses, verify_step_clauses, CopyCircuitConfig,
};
use crate::constraint_system::{
    all_met, constraint_states, gate_states, lookup_states, Clause, Gate, Lookup,
};
use crate::expression::{AnyColumn, Expression};
use crate::field::{field_add, field_mul, field_not, field_or, field_sub, is_truth_value};
use crate::field::{in_field, lemma_truth_values};
use crate::lookup::{tx_log_condition, unpadded_condition};
use crate::trace::Trace;
use vstd::arithmetic::div_mod::*;
use vstd::arithmetic::power2::{lemma2_to64, lemma2_to64_rest};
use vstd::prelude::*;

verus! {

/// Whether exactly the rows from zero to `n` are enabled, the even ones among them as steps, with
/// two disabled rows after them.
pub open spec fn laid_out(c: CopyCircuitConfig, t: Trace, n: int) -> bool {
    &&& n % 2 == 0
    &&& forall|i: int|
        0 <= i < n ==> #[trigger] t.fixed_at(c.q_enable, i) == 1 && (c.is_step(t, i) <==> i % 2
            == 0)
    &&& forall|i: int|
        n <= i < n + 2 ==> #[trigger] t.fixed_at(c.q_enable, i) == 0 && !c.is_step(t, i)
}

/// Whether all gates of the copy circuit hold at `row`.
pub open spec fn gates_met(c: CopyCircuitConfig, r: Expression, t: Trace, row: int) -> bool {
    &&& all_met(verify_row_clauses(c), t, row)
    &&& all_met(last_step_clauses(c), t, row)
    &&& all_met(verify_step_clauses(c, r), t, row)
    &&& all_met(id_hi_clauses(c, CopyDataType::Memory), t, row)
    &&& all_met(id_hi_clauses(c, CopyDataType::TxLog), t, row)
    &&& all_met(id_hi_clauses(c, CopyDataType::TxCalldata), t, row)
}

/// Whether the row holds the bits of some tag.
pub open spec fn tag_valid(c: CopyCircuitConfig, t: Trace, row: int) -> bool {
    exists|tag: CopyDataType| #[trigger] c.copy_table.tag.holds_tag(t, row, tag)
}

/// Whether the trace is laid out in `n` enabled rows and meets everything that is demanded of
/// them: the gates, the encoding of the tags and the comparison of the addresses.
pub open spec fn accepted(c: CopyCircuitConfig, r: Expression, t: Trace, n: int) -> bool {
    &&& t.wf()
    &&& laid_out(c, t, n)
    &&& forall|i: int| 0 <= i < n ==> #[trigger] gates_met(c, r, t, i)
    &&& forall|i: int| 0 <= i < n ==> #[trigger] tag_valid(c, t, i)
    &&& forall|i: int| 0 <= i < n ==> #[trigger] c.comparison().holds(t, i)
}

/// Whether the row belongs to a copy event.
pub open spec fn in_event(c: CopyCircuitConfig, t: Trace, row: int) -> bool {
    c.tag_at(t, row) != CopyDataType::Padding.spec_code()
}

/// Whether the row `start` and those below it are `steps` pairs of a read row and a write row,
/// of which exactly the last row is marked as such, all read rows with one tag and all write rows
/// with one.
pub open spec fn is_event(
    c: CopyCircuitConfig,
    t: Trace,
    n: int,
    start: int,
    steps: int,
) -> bool {
    &&& 0 <= start
    &&& start % 2 == 0
    &&& steps >= 1
    &&& start + 2 * steps < n
    &&& forall|i: int|
        start <= i < start + 2 * steps ==> #[trigger] c.last_at(t, i) == if i == start + 2 * steps
            - 1 {
            1int
        } else {
            0
        }
    &&& forall|i: int|
        start <= i < start + 2 * steps ==> {
            &&& #[trigger] c.tag_at(t, i) == c.tag_at(
                t,
                if i % 2 == 0 {
                    start
                } else {
                    start + 1
                },
            )
            &&& in_event(c, t, i)
        }
}

/// An accepted row of a copy event is not taken for padding.
proof fn lemma_not_padding(c: CopyCircuitConfig, t: Trace, i: int)
    requires
        t.wf(),
        tag_valid(c, t, i),
        in_event(c, t, i),
    ensures
        c.tag_is(t, i, CopyDataType::Padding) == 0,
{
    let tag = choose|tag: CopyDataType| #[trigger] c.copy_table.tag.holds_tag(t, i, tag);
    lemma_tag_decodes(c.copy_table.tag, t, i, tag, CopyDataType::Padding);
}

/// What one pair of rows of a copy event says about the next.
proof fn lemma_pair(c: CopyCircuitConfig, r: Expression, t: Trace, n: int, i: int)
    requires
        accepted(c, r, t, n),
        0 <= i < n,
        i % 2 == 0,
        in_event(c, t, i),
        in_event(c, t, i + 1),
    ensures
        i + 2 < n,
        c.last_at(t, i) == 0,
        is_truth_value(c.last_at(t, i + 1)),
        c.last_at(t, i + 1) == 0 ==> c.continues(t, i) && c.continues(t, i + 1),
        c.last_at(t, i + 1) == 0 ==> c.tag_at(t, i + 2) == c.tag_at(t, i),
        c.last_at(t, i + 1) == 0 ==> c.tag_at(t, i + 3) == c.tag_at(t, i + 1),
{
    assert(i + 1 < n);
    assert(gates_met(c, r, t, i));
    assert(gates_met(c, r, t, i + 1));
    let clauses = verify_row_clauses(c);
    assert(t.fixed_at(c.q_enable, i) == 1);
    assert(t.fixed_at(c.q_enable, i + 1) == 1);
    assert((clauses[4].demand)(t, i));
    if i + 2 >= n {
        assert(t.fixed_at(c.q_enable, i + 2) == 0);
    }
    assert(t.fixed_at(c.q_enable, i + 2) == 1);
    assert(gates_met(c, r, t, i + 2));
    assert((clauses[3].demand)(t, i));
    assert((clauses[3].demand)(t, i + 2));
    assert((clauses[1].demand)(t, i + 1));
    assert((clauses[7].demand)(t, i));
    assert((clauses[7].demand)(t, i + 1));
    assert(tag_valid(c, t, i));
    assert(tag_valid(c, t, i + 1));
    lemma_not_padding(c, t, i);
    lemma_not_padding(c, t, i + 1);
    lemma_small_mod(0, t.modulus as nat);
    lemma_small_mod(1, t.modulus as nat);
}

/// Once an event has started, with a tag on its read row and on its write row, is_last goes to 1
/// at some point: before the enabled rows end, the event does, with all its final conditions
/// checked.
pub proof fn event_terminates(c: CopyCircuitConfig, r: Expression, t: Trace, n: int, start: int)
    requires
        accepted(c, r, t, n),
        0 <= start < n,
        start % 2 == 0,
        in_event(c, t, start),
        in_event(c, t, start + 1),
    ensures
        exists|steps: int| is_event(c, t, n, start, steps),
    decreases n - start,
{
    lemma_pair(c, r, t, n, start);
    if c.last_at(t, start + 1) == 1 {
        assert(is_event(c, t, n, start, 1));
    } else {
        let next = start + 2;
        event_terminates(c, r, t, n, next);
        let rest = choose|steps: int| is_event(c, t, n, next, steps);
        assert forall|i: int| start <= i < start + 2 * (rest + 1) implies {
            &&& #[trigger] c.tag_at(t, i) == c.tag_at(
                t,
                if i % 2 == 0 {
                    start
                } else {
                    start + 1
                },
            )
            &&& in_event(c, t, i)
        } by {
            if i >= start + 2 {
                assert(c.tag_at(t, i) == c.tag_at(
                    t,
                    if i % 2 == 0 {
                        next
                    } else {
                        next + 1
                    },
                ));
            }
        }
        assert(is_event(c, t, n, start, rest + 1));
    }
}

/// A row of an event is followed by the unused rows: they are enabled too.
pub proof fn event_needs_unused_rows(c: CopyCircuitConfig, r: Expression, t: Trace, n: int, i: int)
    requires
        accepted(c, r, t, n),
        0 <= i < n,
        in_event(c, t, i),
    ensures
        i + UNUSED_ROWS < n,
{
    assert(gates_met(c, r, t, i));
    assert(t.fixed_at(c.q_enable, i) == 1);
    assert((verify_row_clauses(c)[4].demand)(t, i));
    if i + 2 >= n {
        assert(t.fixed_at(c.q_enable, i + 2) == 0);
    }
}

/// What a pair of rows of an event says within itself.
proof fn lemma_within_pair(
    c: CopyCircuitConfig,
    r: Expression,
    t: Trace,
    n: int,
    start: int,
    steps: int,
    j: int,
)
    requires
        accepted(c, r, t, n),
        is_event(c, t, n, start, steps),
        0 <= j < steps,
    ensures
        ({
            let i = start + 2 * j;
            &&& c.value_at(t, i) == c.value_at(t, i + 1)
            &&& c.acc_at(t, i) == c.acc_at(t, i + 1)
            &&& c.rlc_acc_at(t, i) == c.rlc_acc_at(t, i + 1)
            &&& c.pad_at(t, i) == field_not(t.modulus, c.lt_at(t, i))
            &&& c.pad_at(t, i + 1) == 0
            &&& c.pad_at(t, i) != 0 ==> c.value_at(t, i) == 0
            &&& c.rw_counter_at(t, i + 1) == field_add(
                t.modulus,
                c.rw_counter_at(t, i),
                c.rw_diff_at(t, i),
            )
            &&& c.rwc_inc_left_at(t, i + 1) == field_sub(
                t.modulus,
                c.rwc_inc_left_at(t, i),
                c.rw_diff_at(t, i),
            )
            &&& j == steps - 1 ==> c.bytes_left_at(t, i) == 1
            &&& j == steps - 1 ==> c.rwc_inc_left_at(t, i + 1) == c.rw_diff_at(t, i + 1)
        }),
{
    let i = start + 2 * j;
    assert(gates_met(c, r, t, i));
    assert(gates_met(c, r, t, i + 1));
    assert(t.fixed_at(c.q_enable, i) == 1);
    assert(t.fixed_at(c.q_enable, i + 1) == 1);
    assert(c.last_at(t, i) == 0);
    let row = verify_row_clauses(c);
    let step = verify_step_clauses(c, r);
    assert((row[10].demand)(t, i));
    assert((row[11].demand)(t, i));
    assert((row[12].demand)(t, i));
    assert((row[13].demand)(t, i + 1));
    assert((step[0].demand)(t, i));
    assert((step[3].demand)(t, i));
    assert((step[4].demand)(t, i));
    assert((step[6].demand)(t, i));
    assert((step[7].demand)(t, i));
    assert((step[8].demand)(t, i));
    assert(c.last_at(t, i + 1) == if j == steps - 1 {
        1int
    } else {
        0
    });
}

/// What a pair of rows of an event says about the next pair.
proof fn lemma_next_pair(
    c: CopyCircuitConfig,
    r: Expression,
    t: Trace,
    n: int,
    start: int,
    steps: int,
    j: int,
)
    requires
        accepted(c, r, t, n),
        is_event(c, t, n, start, steps),
        0 <= j < steps - 1,
    ensures
        ({
            let i = start + 2 * j;
            &&& c.id_lo_at(t, i + 2) == c.id_lo_at(t, i)
            &&& c.id_lo_at(t, i + 3) == c.id_lo_at(t, i + 1)
            &&& c.id_hi_at(t, i + 2) == c.id_hi_at(t, i)
            &&& c.id_hi_at(t, i + 3) == c.id_hi_at(t, i + 1)
            &&& c.addr_at(t, i + 2) == field_add(t.modulus, c.addr_at(t, i), 1)
            &&& c.addr_at(t, i + 3) == field_add(t.modulus, c.addr_at(t, i + 1), 1)
            &&& c.src_addr_end_at(t, i + 2) == c.src_addr_end_at(t, i)
            &&& c.src_addr_end_at(t, i + 3) == c.src_addr_end_at(t, i + 1)
            &&& c.bytes_left_at(t, i) == field_add(t.modulus, c.bytes_left_at(t, i + 2), 1)
            &&& c.rlc_acc_at(t, i + 2) == c.rlc_acc_at(t, i + 1)
            &&& c.rw_counter_at(t, i + 2) == field_add(
                t.modulus,
                c.rw_counter_at(t, i + 1),
                c.rw_diff_at(t, i + 1),
            )
            &&& c.rwc_inc_left_at(t, i + 2) == field_sub(
                t.modulus,
                c.rwc_inc_left_at(t, i + 1),
                c.rw_diff_at(t, i + 1),
            )
            &&& c.pad_at(t, i) != 1 ==> c.acc_at(t, i + 2) == field_add(
                t.modulus,
                field_mul(t.modulus, c.acc_at(t, i), r.eval(t, i)),
                c.value_at(t, i + 2),
            )
        }),
{
    let i = start + 2 * j;
    assert(in_event(c, t, i)) by {
        assert(c.tag_at(t, i) == c.tag_at(t, start));
    }
    assert(in_event(c, t, i + 1)) by {
        assert(c.tag_at(t, i + 1) == c.tag_at(t, start + 1));
    }
    assert(c.last_at(t, i + 1) == 0);
    lemma_pair(c, r, t, n, i);
    assert(tag_valid(c, t, i));
    lemma_not_padding(c, t, i);
    assert(gates_met(c, r, t, i));
    assert(gates_met(c, r, t, i + 1));
    assert(t.fixed_at(c.q_enable, i) == 1);
    assert(t.fixed_at(c.q_enable, i + 1) == 1);
    let row = verify_row_clauses(c);
    let step = verify_step_clauses(c, r);
    assert((row[5].demand)(t, i));
    assert((row[5].demand)(t, i + 1));
    assert((row[6].demand)(t, i));
    assert((row[6].demand)(t, i + 1));
    assert((row[8].demand)(t, i));
    assert((row[8].demand)(t, i + 1));
    assert((row[9].demand)(t, i));
    assert((row[9].demand)(t, i + 1));
    assert((row[10].demand)(t, i + 1));
    assert((row[11].demand)(t, i + 1));
    assert((row[12].demand)(t, i + 1));
    assert((step[1].demand)(t, i));
    assert((step[5].demand)(t, i));
}

/// Within an event the identifiers of source and destination and the end of the source stay the
/// same on either side, and both addresses move on by one with each byte.
pub proof fn event_walks_both_sides(
    c: CopyCircuitConfig,
    r: Expression,
    t: Trace,
    n: int,
    start: int,
    steps: int,
    j: int,
)
    requires
        accepted(c, r, t, n),
        is_event(c, t, n, start, steps),
        0 <= j < steps,
    ensures
        c.id_lo_at(t, start + 2 * j) == c.id_lo_at(t, start),
        c.id_hi_at(t, start + 2 * j) == c.id_hi_at(t, start),
        c.id_lo_at(t, start + 2 * j + 1) == c.id_lo_at(t, start + 1),
        c.id_hi_at(t, start + 2 * j + 1) == c.id_hi_at(t, start + 1),
        c.src_addr_end_at(t, start + 2 * j) == c.src_addr_end_at(t, start),
        c.src_addr_end_at(t, start + 2 * j + 1) == c.src_addr_end_at(t, start + 1),
        c.addr_at(t, start + 2 * j) == field_add(t.modulus, c.addr_at(t, start), j),
        c.addr_at(t, start + 2 * j + 1) == field_add(t.modulus, c.addr_at(t, start + 1), j),
    decreases j,
{
    let p = t.modulus;
    if j == 0 {
        lemma_mod_twice((t.advice)(c.copy_table.addr, start), p);
        lemma_mod_twice((t.advice)(c.copy_table.addr, start + 1), p);
    } else {
        event_walks_both_sides(c, r, t, n, start, steps, j - 1);
        lemma_next_pair(c, r, t, n, start, steps, j - 1);
        lemma_add_mod_noop_right(1, c.addr_at(t, start) + (j - 1), p);
        lemma_add_mod_noop_right(1, c.addr_at(t, start + 1) + (j - 1), p);
    }
}

/// The number of bytes left counts the remaining steps down to one: an event copies exactly as
/// many bytes as its first row says.
pub proof fn event_counts_bytes(
    c: CopyCircuitConfig,
    r: Expression,
    t: Trace,
    n: int,
    start: int,
    steps: int,
    j: int,
)
    requires
        accepted(c, r, t, n),
        is_event(c, t, n, start, steps),
        0 <= j < steps,
    ensures
        c.bytes_left_at(t, start + 2 * j) == (steps - j) % t.modulus,
    decreases steps - j,
{
    lemma_within_pair(c, r, t, n, start, steps, j);
    if j == steps - 1 {
        lemma_small_mod(1, t.modulus as nat);
    } else {
        event_counts_bytes(c, r, t, n, start, steps, j + 1);
        lemma_next_pair(c, r, t, n, start, steps, j);
        lemma_add_mod_noop_right(1, steps - j - 1, t.modulus);
    }
}

/// Each write row writes the value that its read row reads. A read at or beyond the end of the
/// source is padding and reads zero, one before the end is not; a write is never padding.
pub proof fn event_copies_values(
    c: CopyCircuitConfig,
    r: Expression,
    t: Trace,
    n: int,
    start: int,
    steps: int,
    j: int,
)
    requires
        accepted(c, r, t, n),
        is_event(c, t, n, start, steps),
        0 <= j < steps,
    ensures
        c.value_at(t, start + 2 * j + 1) == c.value_at(t, start + 2 * j),
        is_truth_value(c.pad_at(t, start + 2 * j)),
        c.pad_at(t, start + 2 * j + 1) == 0,
        c.pad_at(t, start + 2 * j) == 1 ==> c.value_at(t, start + 2 * j) == 0,
        c.addr_at(t, start + 2 * j) <= u64::MAX && c.src_addr_end_at(t, start + 2 * j) <= u64::MAX
            ==> (c.pad_at(t, start + 2 * j) == 1 <==> c.addr_at(t, start + 2 * j)
            >= c.src_addr_end_at(t, start + 2 * j)),
{
    let i = start + 2 * j;
    lemma_within_pair(c, r, t, n, start, steps, j);
    assert(0 <= i < n && i % 2 == 0);
    assert(t.fixed_at(c.q_enable, i) == 1);
    assert(c.comparison().holds(t, i));
    assert(c.comparison().q_enable.eval(t, i) == 1);
    lemma2_to64();
    lemma2_to64_rest();
    lemma_small_mod(0, t.modulus as nat);
    lemma_small_mod(1, t.modulus as nat);
}

/// Whether the row accesses memory or a log.
pub open spec fn is_access(c: CopyCircuitConfig, t: Trace, row: int) -> bool {
    &&& c.tag_at(t, row) == CopyDataType::Memory.spec_code() || c.tag_at(t, row)
        == CopyDataType::TxLog.spec_code()
    &&& c.pad_at(t, row) == 0
}

/// The number of accesses in the `count` rows from `start` on.
pub open spec fn accesses(c: CopyCircuitConfig, t: Trace, start: int, count: int) -> int
    decreases count,
{
    if count <= 0 {
        0
    } else {
        accesses(c, t, start, count - 1) + if is_access(c, t, start + count - 1) {
            1int
        } else {
            0
        }
    }
}

/// A row moves the counter by one if it is an access, and leaves it as it is if not.
pub proof fn lemma_rw_diff(c: CopyCircuitConfig, t: Trace, i: int)
    requires
        t.wf(),
        tag_valid(c, t, i),
        is_truth_value(c.pad_at(t, i)),
    ensures
        c.rw_diff_at(t, i) == if is_access(c, t, i) {
            1int
        } else {
            0
        },
{
    let p = t.modulus;
    let tag = choose|tag: CopyDataType| #[trigger] c.copy_table.tag.holds_tag(t, i, tag);
    lemma_tag_decodes(c.copy_table.tag, t, i, tag, CopyDataType::Memory);
    lemma_tag_decodes(c.copy_table.tag, t, i, tag, CopyDataType::TxLog);
    let memory = c.tag_is(t, i, CopyDataType::Memory);
    let log = c.tag_is(t, i, CopyDataType::TxLog);
    let pad = c.pad_at(t, i);
    lemma_truth_values(p, memory, log);
    lemma_truth_values(p, pad, pad);
    lemma_truth_values(p, field_or(p, memory, log), field_not(p, pad));
}

/// What a row of an event says about the counter and its remaining growth.
proof fn lemma_row_accesses(
    c: CopyCircuitConfig,
    r: Expression,
    t: Trace,
    n: int,
    start: int,
    steps: int,
    m: int,
)
    requires
        accepted(c, r, t, n),
        is_event(c, t, n, start, steps),
        0 <= m < 2 * steps,
    ensures
        ({
            let i = start + m;
            let diff = if is_access(c, t, i) {
                1int
            } else {
                0
            };
            &&& m < 2 * steps - 1 ==> c.rw_counter_at(t, i + 1) == field_add(
                t.modulus,
                c.rw_counter_at(t, i),
                diff,
            )
            &&& m < 2 * steps - 1 ==> c.rwc_inc_left_at(t, i + 1) == field_sub(
                t.modulus,
                c.rwc_inc_left_at(t, i),
                diff,
            )
            &&& m == 2 * steps - 1 ==> c.rwc_inc_left_at(t, i) == diff
        }),
{
    let i = start + m;
    let j = m / 2;
    lemma_within_pair(c, r, t, n, start, steps, j);
    event_copies_values(c, r, t, n, start, steps, j);
    if j < steps - 1 {
        lemma_next_pair(c, r, t, n, start, steps, j);
    }
    assert(tag_valid(c, t, i));
    lemma_rw_diff(c, t, i);
}

/// Each row finds the counter of accesses moved on by the accesses of the rows above it.
pub proof fn event_advances_counter(
    c: CopyCircuitConfig,
    r: Expression,
    t: Trace,
    n: int,
    start: int,
    steps: int,
    m: int,
)
    requires
        accepted(c, r, t, n),
        is_event(c, t, n, start, steps),
        0 <= m < 2 * steps,
    ensures
        c.rw_counter_at(t, start + m) == field_add(
            t.modulus,
            c.rw_counter_at(t, start),
            accesses(c, t, start, m),
        ),
    decreases m,
{
    let p = t.modulus;
    if m == 0 {
        lemma_mod_twice((t.advice)(c.copy_table.rw_counter, start), p);
    } else {
        event_advances_counter(c, r, t, n, start, steps, m - 1);
        lemma_row_accesses(c, r, t, n, start, steps, m - 1);
        let diff = if is_access(c, t, start + m - 1) {
            1int
        } else {
            0
        };
        lemma_add_mod_noop_right(
            diff,
            c.rw_counter_at(t, start) + accesses(c, t, start, m - 1),
            p,
        );
    }
}

/// Each row says by how much the counter still grows: by the accesses from it to the event's end.
/// The first row thus says how many accesses the event makes.
pub proof fn event_announces_accesses(
    c: CopyCircuitConfig,
    r: Expression,
    t: Trace,
    n: int,
    start: int,
    steps: int,
    m: int,
)
    requires
        accepted(c, r, t, n),
        is_event(c, t, n, start, steps),
        0 <= m < 2 * steps,
    ensures
        c.rwc_inc_left_at(t, start + m) == (accesses(c, t, start, 2 * steps) - accesses(
            c,
            t,
            start,
            m,
        )) % t.modulus,
    decreases 2 * steps - m,
{
    let p = t.modulus;
    lemma_row_accesses(c, r, t, n, start, steps, m);
    let diff = if is_access(c, t, start + m) {
        1int
    } else {
        0
    };
    assert(accesses(c, t, start, m + 1) == accesses(c, t, start, m) + diff);
    if m == 2 * steps - 1 {
        lemma_small_mod(diff as nat, p as nat);
    } else {
        event_announces_accesses(c, r, t, n, start, steps, m + 1);
        let left = c.rwc_inc_left_at(t, start + m);
        let rest = accesses(c, t, start, 2 * steps) - accesses(c, t, start, m + 1);
        lemma_add_mod_noop_right(diff, left - diff, p);
        lemma_add_mod_noop_right(diff, rest, p);
        lemma_mod_twice((t.advice)(c.copy_table.rwc_inc_left, start + m), p);
        assert(c.rwc_inc_left_at(t, start + m + 1) == (left - diff) % p);
        assert(left == (diff + rest) % p);
    }
}

/// The random linear combination of the first `count + 1` bytes of an event, to the base `r`.
pub open spec fn rlc_of_values(
    c: CopyCircuitConfig,
    r: Expression,
    t: Trace,
    start: int,
    count: int,
) -> int
    decreases count,
{
    if count <= 0 {
        c.value_at(t, start)
    } else {
        field_add(
            t.modulus,
            field_mul(
                t.modulus,
                rlc_of_values(c, r, t, start, count - 1),
                r.eval(t, start + 2 * (count - 1)),
            ),
            c.value_at(t, start + 2 * count),
        )
    }
}

/// The table's accumulator is the same in all rows of an event.
pub proof fn event_shares_accumulator(
    c: CopyCircuitConfig,
    r: Expression,
    t: Trace,
    n: int,
    start: int,
    steps: int,
    j: int,
)
    requires
        accepted(c, r, t, n),
        is_event(c, t, n, start, steps),
        0 <= j < steps,
    ensures
        c.rlc_acc_at(t, start + 2 * j) == c.rlc_acc_at(t, start),
        c.rlc_acc_at(t, start + 2 * j + 1) == c.rlc_acc_at(t, start),
    decreases j,
{
    lemma_within_pair(c, r, t, n, start, steps, j);
    if j > 0 {
        event_shares_accumulator(c, r, t, n, start, steps, j - 1);
        lemma_next_pair(c, r, t, n, start, steps, j - 1);
    }
}

/// From an event's first row on, as long as no read is padding, the accumulated value is the
/// random linear combination of the bytes so far.
pub proof fn event_accumulates_values(
    c: CopyCircuitConfig,
    r: Expression,
    t: Trace,
    n: int,
    start: int,
    steps: int,
    j: int,
)
    requires
        accepted(c, r, t, n),
        is_event(c, t, n, start, steps),
        c.first_at(t, start) == 1,
        0 <= j < steps,
        forall|k: int| 0 <= k < j ==> #[trigger] c.pad_at(t, start + 2 * k) == 0,
    ensures
        c.acc_at(t, start + 2 * j) == rlc_of_values(c, r, t, start, j),
        c.acc_at(t, start + 2 * j + 1) == rlc_of_values(c, r, t, start, j),
    decreases j,
{
    lemma_within_pair(c, r, t, n, start, steps, j);
    if j == 0 {
        assert(gates_met(c, r, t, start));
        assert(t.fixed_at(c.q_enable, start) == 1);
        assert((verify_step_clauses(c, r)[2].demand)(t, start));
    } else {
        event_accumulates_values(c, r, t, n, start, steps, j - 1);
        lemma_next_pair(c, r, t, n, start, steps, j - 1);
        assert(c.pad_at(t, start + 2 * (j - 1)) == 0);
    }
}

/// A copy from memory to a bytecode, or to an accumulator, whose reads before the last one are
/// not padding, shows in the table the random linear combination of all its bytes.
pub proof fn event_exposes_rlc(
    c: CopyCircuitConfig,
    r: Expression,
    t: Trace,
    n: int,
    start: int,
    steps: int,
)
    requires
        accepted(c, r, t, n),
        is_event(c, t, n, start, steps),
        c.first_at(t, start) == 1,
        (c.tag_at(t, start) == CopyDataType::Memory.spec_code() && c.tag_at(t, start + 1)
            == CopyDataType::Bytecode.spec_code()) || c.tag_at(t, start + 1)
            == CopyDataType::RlcAcc.spec_code(),
        forall|k: int| 0 <= k < steps - 1 ==> #[trigger] c.pad_at(t, start + 2 * k) == 0,
    ensures
        c.rlc_acc_at(t, start) == rlc_of_values(c, r, t, start, steps - 1),
{
    let p = t.modulus;
    let i = start + 2 * (steps - 1);
    event_accumulates_values(c, r, t, n, start, steps, steps - 1);
    event_shares_accumulator(c, r, t, n, start, steps, steps - 1);
    assert(gates_met(c, r, t, i));
    assert(t.fixed_at(c.q_enable, i) == 1);
    assert(c.last_at(t, i + 1) == 1);
    assert(c.tag_at(t, i) == c.tag_at(t, start));
    assert(c.tag_at(t, i + 1) == c.tag_at(t, start + 1));
    assert(tag_valid(c, t, i));
    assert(tag_valid(c, t, i + 1));
    let read = choose|tag: CopyDataType| #[trigger] c.copy_table.tag.holds_tag(t, i, tag);
    let written = choose|tag: CopyDataType| #[trigger] c.copy_table.tag.holds_tag(t, i + 1, tag);
    lemma_tag_decodes(c.copy_table.tag, t, i, read, CopyDataType::Memory);
    lemma_tag_decodes(c.copy_table.tag, t, i + 1, written, CopyDataType::Bytecode);
    lemma_tag_decodes(c.copy_table.tag, t, i + 1, written, CopyDataType::RlcAcc);
    let from_memory = c.tag_is(t, i, CopyDataType::Memory);
    let to_code = c.tag_is(t, i + 1, CopyDataType::Bytecode);
    let to_accumulator = c.tag_is(t, i + 1, CopyDataType::RlcAcc);
    lemma_truth_values(p, from_memory, to_code);
    lemma_small_mod(1, p as nat);
    assert(field_add(p, field_mul(p, from_memory, to_code), to_accumulator) == 1);
    assert((last_step_clauses(c)[0].demand)(t, i));
    assert(c.acc_at(t, i + 1) == c.rlc_acc_at(t, i + 1));
}

/// A memory, log or calldata row that is not padding has an identifier of one limb.
pub proof fn narrow_identifiers(c: CopyCircuitConfig, r: Expression, t: Trace, n: int, i: int)
    requires
        accepted(c, r, t, n),
        0 <= i < n,
        c.tag_at(t, i) == CopyDataType::Memory.spec_code() || c.tag_at(t, i)
            == CopyDataType::TxLog.spec_code() || c.tag_at(t, i)
            == CopyDataType::TxCalldata.spec_code(),
        c.pad_at(t, i) == 0,
    ensures
        c.id_hi_at(t, i) == 0,
{
    assert(gates_met(c, r, t, i));
    assert(t.fixed_at(c.q_enable, i) == 1);
    assert(tag_valid(c, t, i));
    let tag = choose|tag: CopyDataType| #[trigger] c.copy_table.tag.holds_tag(t, i, tag);
    lemma_tag_decodes(c.copy_table.tag, t, i, tag, tag);
    assert((id_hi_clauses(c, CopyDataType::Memory)[0].demand)(t, i));
    assert((id_hi_clauses(c, CopyDataType::TxLog)[0].demand)(t, i));
    assert((id_hi_clauses(c, CopyDataType::TxCalldata)[0].demand)(t, i));
}

/// The gates' polynomials all vanish in a row exactly where all their demands are met.
pub proof fn gates_demand_what_they_state(
    c: CopyCircuitConfig,
    r: Expression,
    gates: Seq<Gate>,
    t: Trace,
    i: int,
)
    requires
        t.wf(),
        c.gates_state(r, gates),
    ensures
        gates_met(c, r, t, i) <==> forall|g: int, j: int|
            0 <= g < gates.len() && 0 <= j < gates[g].constraints@.len() ==> #[trigger]
                gates[g].constraints@[j].holds(t, i),
{
    lemma_gate_demands(gates[0], "verify row"@, verify_row_clauses(c), t, i);
    lemma_gate_demands(
        gates[1],
        "Last Step (check value accumulator) Memory => Bytecode or RlcAcc"@,
        last_step_clauses(c),
        t,
        i,
    );
    lemma_gate_demands(
        gates[2],
        "verify step (q_step == 1)"@,
        verify_step_clauses(c, r),
        t,
        i,
    );
    lemma_gate_demands(
        gates[3],
        "id_hi === 0 when Momory"@,
        id_hi_clauses(c, CopyDataType::Memory),
        t,
        i,
    );
    lemma_gate_demands(
        gates[4],
        "id_hi === 0 when TxLog"@,
        id_hi_clauses(c, CopyDataType::TxLog),
        t,
        i,
    );
    lemma_gate_demands(
        gates[5],
        "id_hi === 0 when TxCalldata"@,
        id_hi_clauses(c, CopyDataType::TxCalldata),
        t,
        i,
    );
}

/// A gate's polynomials all vanish in a row exactly where all its clauses' demands are met.
proof fn lemma_gate_demands(gate: Gate, name: Seq<char>, clauses: Seq<Clause>, t: Trace, i: int)
    requires
        t.wf(),
        gate_states(gate, name, clauses),
    ensures
        all_met(clauses, t, i) <==> forall|j: int|
            0 <= j < gate.constraints@.len() ==> #[trigger] gate.constraints@[j].holds(t, i),
{
    assert forall|j: int| 0 <= j < clauses.len() implies (#[trigger] clauses[j].demand)(t, i)
        == gate.constraints@[j].holds(t, i) by {
        assert(constraint_states(gate.constraints@[j], clauses[j]));
    }
    if forall|j: int|
        0 <= j < gate.constraints@.len() ==> #[trigger] gate.constraints@[j].holds(t, i) {
        assert forall|j: int| 0 <= j < clauses.len() implies (#[trigger] clauses[j].demand)(
            t,
            i,
        ) by {
            assert(gate.constraints@[j].holds(t, i));
        }
    }
    if all_met(clauses, t, i) {
        assert forall|j: int| 0 <= j < gate.constraints@.len() implies #[trigger]
            gate.constraints@[j].holds(t, i) by {
            assert((clauses[j].demand)(t, i));
        }
    }
}

/// A row of an accepted trace is either padding or not: its mark is a truth value.
proof fn lemma_pad_is_flag(c: CopyCircuitConfig, r: Expression, t: Trace, n: int, i: int)
    requires
        accepted(c, r, t, n),
        0 <= i < n,
    ensures
        is_truth_value(c.pad_at(t, i)),
{
    let read = if i % 2 == 0 {
        i
    } else {
        i - 1
    };
    assert(t.fixed_at(c.q_enable, read) == 1);
    assert(gates_met(c, r, t, read));
    assert((verify_step_clauses(c, r)[7].demand)(t, read));
    assert((verify_step_clauses(c, r)[8].demand)(t, read));
    assert(c.comparison().holds(t, read));
    assert(c.comparison().q_enable.eval(t, read) == 1);
    lemma_truth_values(t.modulus, c.lt_at(t, read), 0);
}

/// The lookups of memory, bytecode and calldata are made in the rows with that tag that are not
/// padding, and in no other enabled rows.
pub proof fn unpadded_rows_are_looked_up(
    c: CopyCircuitConfig,
    r: Expression,
    t: Trace,
    n: int,
    i: int,
    tag: CopyDataType,
)
    requires
        accepted(c, r, t, n),
        0 <= i < n,
    ensures
        unpadded_condition(c, tag)(t, i) == if c.tag_at(t, i) == tag.spec_code() && c.pad_at(t, i)
            == 0 {
            1int
        } else {
            0
        },
{
    let p = t.modulus;
    assert(t.fixed_at(c.q_enable, i) == 1);
    assert(tag_valid(c, t, i));
    let held = choose|held: CopyDataType| #[trigger] c.copy_table.tag.holds_tag(t, i, held);
    lemma_tag_decodes(c.copy_table.tag, t, i, held, tag);
    lemma_pad_is_flag(c, r, t, n, i);
    let is_tag = c.tag_is(t, i, tag);
    lemma_truth_values(p, 1, is_tag);
    lemma_truth_values(p, c.pad_at(t, i), 0);
    lemma_truth_values(p, field_mul(p, 1, is_tag), field_not(p, c.pad_at(t, i)));
}

/// The lookup of log writes is made in the rows with that tag, and in no other enabled rows.
pub proof fn log_rows_are_looked_up(
    c: CopyCircuitConfig,
    r: Expression,
    t: Trace,
    n: int,
    i: int,
)
    requires
        accepted(c, r, t, n),
        0 <= i < n,
    ensures
        tx_log_condition(c)(t, i) == if c.tag_at(t, i) == CopyDataType::TxLog.spec_code() {
            1int
        } else {
            0
        },
{
    assert(t.fixed_at(c.q_enable, i) == 1);
    assert(tag_valid(c, t, i));
    let held = choose|held: CopyDataType| #[trigger] c.copy_table.tag.holds_tag(t, i, held);
    lemma_tag_decodes(c.copy_table.tag, t, i, held, CopyDataType::TxLog);
    lemma_truth_values(t.modulus, 1, c.tag_is(t, i, CopyDataType::TxLog));
}

/// A lookup that is made looks its arguments up, and one that is not made looks up zeros.
pub proof fn lookup_is_made_or_vacuous(
    lookup: Lookup,
    name: Seq<char>,
    condition: spec_fn(Trace, int) -> int,
    arguments: Seq<spec_fn(Trace, int) -> int>,
    table: Seq<AnyColumn>,
    t: Trace,
    i: int,
    k: int,
)
    requires
        t.wf(),
        lookup_states(lookup, name, condition, arguments, table),
        is_truth_value(condition(t, i)),
        0 <= k < lookup.entries@.len(),
        in_field(t.modulus, (arguments[k])(t, i)),
    ensures
        lookup.entries@[k].0.eval(t, i) == if condition(t, i) == 1 {
            (arguments[k])(t, i)
        } else {
            0
        },
{
    let argument = (arguments[k])(t, i);
    lemma_small_mod(argument as nat, t.modulus as nat);
    lemma_small_mod(0, t.modulus as nat);
    assert(0 * argument == 0 && 1 * argument == argument) by (nonlinear_arith);
}

} // verus!
