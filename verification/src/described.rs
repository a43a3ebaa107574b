//! Rows that describe a copy, and why the circuit accepts them once they are assigned.
use crate::assignment::{
    lemma_rows_needed_grow, rows_needed, CopyEvent, CopyRow, DISABLED_ROWS,
};
use crate::binary_number::{lemma_tag_decodes, CopyDataType};
use crate::completeness::{is_copy, is_copy_row, is_padding_row};
use crate::config::CopyCircuitConfig;
use crate::expression::Expression;
use crate::field::{field_add, field_mul, field_sub};
use crate::layout::{
    assigned_circuit_is_accepted, assigned_events_hold_their_rows, assigned_rest_is_padding,
    assigned_rows_come_in_pairs, event_is_copy, holds_row, lemma_locate, lemma_rows_needed_even,
    realizes, region_fits,
};
use crate::region::Label;
use crate::soundness::{accepted, accesses, gates_met, tag_valid};
use crate::trace::Trace;
use vstd::arithmetic::div_mod::*;
use vstd::arithmetic::power2::{lemma2_to64, lemma2_to64_rest};
use vstd::prelude::*;

verus! {

/// How the values of a row are read: as elements of the field of order `p`, by way of `val`.
#[verifier::reject_recursive_types(V)]
pub struct Reading<V> {
    pub p: int,
    pub val: spec_fn(V) -> int,
}

impl<V> Reading<V> {
    /// The `k`-th cell of the copy table.
    pub open spec fn table(self, row: CopyRow<V>, k: int) -> int {
        (self.val)(row.table_row@[k].0) % self.p
    }

    /// The `k`-th of the other cells.
    pub open spec fn circuit(self, row: CopyRow<V>, k: int) -> int {
        (self.val)(row.circuit_row@[k].0) % self.p
    }

    pub open spec fn first(self, row: CopyRow<V>) -> int {
        self.table(row, 0)
    }

    pub open spec fn id_lo(self, row: CopyRow<V>) -> int {
        self.table(row, 1)
    }

    pub open spec fn id_hi(self, row: CopyRow<V>) -> int {
        self.table(row, 2)
    }

    pub open spec fn addr(self, row: CopyRow<V>) -> int {
        self.table(row, 3)
    }

    pub open spec fn src_addr_end(self, row: CopyRow<V>) -> int {
        self.table(row, 4)
    }

    pub open spec fn bytes_left(self, row: CopyRow<V>) -> int {
        self.table(row, 5)
    }

    pub open spec fn rlc_acc(self, row: CopyRow<V>) -> int {
        self.table(row, 6)
    }

    pub open spec fn rw_counter(self, row: CopyRow<V>) -> int {
        self.table(row, 7)
    }

    pub open spec fn rwc_inc_left(self, row: CopyRow<V>) -> int {
        self.table(row, 8)
    }

    pub open spec fn last(self, row: CopyRow<V>) -> int {
        self.circuit(row, 0)
    }

    pub open spec fn value(self, row: CopyRow<V>) -> int {
        self.circuit(row, 1)
    }

    pub open spec fn acc(self, row: CopyRow<V>) -> int {
        self.circuit(row, 2)
    }

    pub open spec fn pad(self, row: CopyRow<V>) -> int {
        self.circuit(row, 3)
    }

    /// The number of accesses to memory and logs that the first `count` rows make.
    pub open spec fn accesses(self, rows: Seq<CopyRow<V>>, count: int) -> int
        decreases count,
    {
        if count <= 0 {
            0
        } else {
            let row = rows[count - 1];
            self.accesses(rows, count - 1) + if (row.tag == CopyDataType::Memory || row.tag
                == CopyDataType::TxLog) && self.pad(row) == 0 {
                1int
            } else {
                0
            }
        }
    }

    /// Whether the `m`-th row is what the copy of the event's bytes from `src` to `dst` has there,
    /// `base` being that of the random linear combination.
    pub open spec fn describes_row(
        self,
        base: int,
        event: CopyEvent,
        rows: Seq<CopyRow<V>>,
        src: CopyDataType,
        dst: CopyDataType,
        m: int,
    ) -> bool {
        let row = rows[m];
        let is_read = m % 2 == 0;
        let side = if is_read {
            rows[0]
        } else {
            rows[1]
        };
        let j = m / 2;
        let steps = event.bytes@.len() as int;
        &&& row.tag == if is_read {
            src
        } else {
            dst
        }
        &&& forall|k: int|
            0 <= k < 9 && k != 4 && k != 5 ==> (#[trigger] row.table_row@[k]).1 != Label::SrcAddrEnd
                && row.table_row@[k].1 != Label::BytesLeft
        &&& self.first(row) == if m == 0 {
            1int
        } else {
            0
        }
        &&& self.last(row) == if m == 2 * steps - 1 {
            1int
        } else {
            0
        }
        &&& self.id_lo(row) == self.id_lo(side)
        &&& self.id_hi(row) == self.id_hi(side)
        &&& self.rlc_acc(row) == self.rlc_acc(rows[0])
        &&& self.rw_counter(row) == field_add(
            self.p,
            self.rw_counter(rows[0]),
            self.accesses(rows, m),
        )
        &&& self.rwc_inc_left(row) == field_sub(
            self.p,
            self.accesses(rows, 2 * steps),
            self.accesses(rows, m),
        )
        &&& self.value(row) == event.bytes@[j].value
        &&& if is_read {
            &&& self.addr(row) == event.src_addr + j
            &&& self.src_addr_end(row) == event.src_addr_end
            &&& self.bytes_left(row) == (steps - j) % self.p
            &&& self.pad(row) == if event.src_addr + j < event.src_addr_end {
                0int
            } else {
                1
            }
            &&& self.pad(row) == 1 ==> event.bytes@[j].value == 0
            &&& self.acc(row) == if m == 0 {
                self.value(row)
            } else {
                field_add(
                    self.p,
                    field_mul(self.p, self.acc(rows[m - 2]), base),
                    self.value(row),
                )
            }
        } else {
            &&& self.addr(row) == field_add(self.p, self.addr(rows[1]), j)
            &&& self.pad(row) == 0
            &&& self.acc(row) == self.acc(rows[m - 1])
        }
        &&& (row.tag == CopyDataType::Memory || row.tag == CopyDataType::TxLog || row.tag
            == CopyDataType::TxCalldata) && self.pad(row) == 0 ==> self.id_hi(row) == 0
    }

    /// Whether the rows describe the copy of the event's bytes from `src` to `dst`.
    pub open spec fn describes(
        self,
        base: int,
        event: CopyEvent,
        rows: Seq<CopyRow<V>>,
        src: CopyDataType,
        dst: CopyDataType,
    ) -> bool {
        &&& src != CopyDataType::Padding
        &&& dst != CopyDataType::Padding
        &&& forall|m: int|
            0 <= m < 2 * event.bytes@.len() ==> #[trigger] self.describes_row(
                base,
                event,
                rows,
                src,
                dst,
                m,
            )
        &&& (src == CopyDataType::Memory && dst == CopyDataType::Bytecode) || dst
            == CopyDataType::RlcAcc ==> self.rlc_acc(rows[0]) == self.acc(
            rows[2 * event.bytes@.len() - 1],
        )
    }
}

/// Whether the rows of an event of at least one byte describe a copy from somewhere to somewhere.
pub open spec fn describes_copy<V>(
    reading: Reading<V>,
    base: int,
    event: CopyEvent,
    rows: Seq<CopyRow<V>>,
) -> bool {
    exists|src: CopyDataType, dst: CopyDataType| #[trigger]
        reading.describes(base, event, rows, src, dst)
}

/// Whether the cells of an event's read rows and write rows that are left unassigned are zero.
pub open spec fn unassigned_are_zero(
    c: CopyCircuitConfig,
    t: Trace,
    copy_events: Seq<CopyEvent>,
) -> bool {
    forall|row: int|
        0 <= row < rows_needed(copy_events, copy_events.len()) && row % 2 == 1 ==> #[trigger]
            c.src_addr_end_at(t, row) == 0
}

/// What an assigned row holds, column by column.
proof fn lemma_cells<V>(
    c: CopyCircuitConfig,
    t: Trace,
    reading: Reading<V>,
    event: CopyEvent,
    m: int,
    row: CopyRow<V>,
    i: int,
)
    requires
        t.wf(),
        reading.p == t.modulus,
        holds_row(c, t, reading.val, event, m, row, i),
        forall|k: int|
            0 <= k < 9 && k != 4 && k != 5 ==> (#[trigger] row.table_row@[k]).1 != Label::SrcAddrEnd
                && row.table_row@[k].1 != Label::BytesLeft,
    ensures
        c.first_at(t, i) == reading.first(row),
        c.id_lo_at(t, i) == reading.id_lo(row),
        c.id_hi_at(t, i) == reading.id_hi(row),
        c.addr_at(t, i) == reading.addr(row),
        m % 2 == 0 ==> c.src_addr_end_at(t, i) == reading.src_addr_end(row),
        m % 2 == 0 ==> c.bytes_left_at(t, i) == reading.bytes_left(row),
        c.rlc_acc_at(t, i) == reading.rlc_acc(row),
        c.rw_counter_at(t, i) == reading.rw_counter(row),
        c.rwc_inc_left_at(t, i) == reading.rwc_inc_left(row),
        c.last_at(t, i) == reading.last(row),
        c.value_at(t, i) == reading.value(row),
        c.acc_at(t, i) == reading.acc(row),
        c.pad_at(t, i) == reading.pad(row),
{
    let columns = c.copy_table.spec_advice_columns();
    assert(columns[0] == c.copy_table.is_first);
    assert(columns[1] == c.copy_table.id.lo);
    assert(columns[2] == c.copy_table.id.hi);
    assert(columns[3] == c.copy_table.addr);
    assert(columns[4] == c.copy_table.src_addr_end);
    assert(columns[5] == c.copy_table.bytes_left);
    assert(columns[6] == c.copy_table.rlc_acc);
    assert(columns[7] == c.copy_table.rw_counter);
    assert(columns[8] == c.copy_table.rwc_inc_left);
    assert(row.table_row@[0].1 != Label::SrcAddrEnd);
    assert(row.table_row@[1].1 != Label::SrcAddrEnd);
    assert(row.table_row@[2].1 != Label::SrcAddrEnd);
    assert(row.table_row@[3].1 != Label::SrcAddrEnd);
    assert(row.table_row@[6].1 != Label::SrcAddrEnd);
    assert(row.table_row@[7].1 != Label::SrcAddrEnd);
    assert(row.table_row@[8].1 != Label::SrcAddrEnd);
    let others = c.circuit_columns();
    assert(others[0] == c.is_last);
    assert(others[1] == c.value);
    assert(others[2] == c.value_acc_rlc);
    assert(others[3] == c.is_pad);
}

/// Whether the rows of the trace from `start` on hold the rows of an event.
spec fn holds_rows<V>(
    c: CopyCircuitConfig,
    t: Trace,
    reading: Reading<V>,
    event: CopyEvent,
    rows: Seq<CopyRow<V>>,
    start: int,
) -> bool {
    forall|m: int|
        0 <= m < 2 * event.bytes@.len() ==> holds_row(
            c,
            t,
            reading.val,
            event,
            m,
            #[trigger] rows[m],
            start + m,
        )
}

/// The trace makes the accesses that its rows describe.
proof fn lemma_same_accesses<V>(
    c: CopyCircuitConfig,
    t: Trace,
    reading: Reading<V>,
    base: int,
    event: CopyEvent,
    rows: Seq<CopyRow<V>>,
    src: CopyDataType,
    dst: CopyDataType,
    start: int,
    count: int,
)
    requires
        t.wf(),
        reading.p == t.modulus,
        reading.describes(base, event, rows, src, dst),
        holds_rows(c, t, reading, event, rows, start),
        0 <= count <= 2 * event.bytes@.len(),
    ensures
        accesses(c, t, start, count) == reading.accesses(rows, count),
    decreases count,
{
    if count > 0 {
        lemma_same_accesses(
            c,
            t,
            reading,
            base,
            event,
            rows,
            src,
            dst,
            start,
            count - 1,
        );
        let m = count - 1;
        let row = rows[m];
        assert(reading.describes_row(base, event, rows, src, dst, m));
        lemma_cells(c, t, reading, event, m, row, start + m);
        lemma_tag_decodes(c.copy_table.tag, t, start + m, row.tag, row.tag);
    }
}

/// Rows that describe a copy make the trace that holds them one.
proof fn lemma_described_is_copy<V>(
    c: CopyCircuitConfig,
    r: Expression,
    t: Trace,
    reading: Reading<V>,
    base: int,
    event: CopyEvent,
    rows: Seq<CopyRow<V>>,
    src: CopyDataType,
    dst: CopyDataType,
    start: int,
)
    requires
        t.wf(),
        reading.p == t.modulus,
        reading.describes(base, event, rows, src, dst),
        holds_rows(c, t, reading, event, rows, start),
        forall|i: int| #[trigger] r.eval(t, i) == base,
        event.bytes@.len() >= 1,
        0 <= start,
        start % 2 == 0,
        forall|i: int|
            start <= i < start + 2 * event.bytes@.len() && i % 2 == 1 ==> #[trigger]
                c.src_addr_end_at(t, i) == 0,
    ensures
        is_copy(c, r, t, start, event.bytes@.len() as int, src, dst),
{
    let p = t.modulus;
    let steps = event.bytes@.len() as int;
    assert forall|i: int| start <= i < start + 2 * steps implies #[trigger] is_copy_row(
        c,
        r,
        t,
        start,
        steps,
        src,
        dst,
        i,
    ) by {
        let m = i - start;
        let j = m / 2;
        let row = rows[m];
        assert(reading.describes_row(base, event, rows, src, dst, m));
        assert(reading.describes_row(base, event, rows, src, dst, 0));
        assert(reading.describes_row(base, event, rows, src, dst, 1));
        lemma_cells(c, t, reading, event, m, row, i);
        lemma_cells(c, t, reading, event, 0, rows[0], start);
        lemma_cells(c, t, reading, event, 1, rows[1], start + 1);
        lemma_same_accesses(c, t, reading, base, event, rows, src, dst, start, m);
        lemma_same_accesses(c, t, reading, base, event, rows, src, dst, start, 2 * steps);
        if m % 2 == 0 {
            assert(c.addr_at(t, i) == event.src_addr + j);
            lemma_mod_twice((t.advice)(c.copy_table.addr, i), p);
            assert(c.addr_at(t, start) == event.src_addr);
            assert(r.eval(t, i - 2) == base);
            if m > 0 {
                assert(reading.describes_row(base, event, rows, src, dst, m - 2));
                lemma_cells(c, t, reading, event, m - 2, rows[m - 2], i - 2);
            }
        } else {
            assert(reading.describes_row(base, event, rows, src, dst, m - 1));
            lemma_cells(c, t, reading, event, m - 1, rows[m - 1], i - 1);
            assert((m - 1) / 2 == j);
            assert(c.src_addr_end_at(t, i) == 0);
            assert(c.src_addr_end_at(t, start + 1) == 0);
        }
    }
    let end = 2 * steps - 1;
    assert(reading.describes_row(base, event, rows, src, dst, 0));
    assert(reading.describes_row(base, event, rows, src, dst, end));
    lemma_cells(c, t, reading, event, 0, rows[0], start);
    lemma_cells(c, t, reading, event, end, rows[end], start + end);
}

/// The rows that an event is assigned to are a copy of its bytes, if its rows describe one.
proof fn lemma_assigned_is_copy<V>(
    c: CopyCircuitConfig,
    r: Expression,
    t: Trace,
    reading: Reading<V>,
    base: int,
    copy_events: Seq<CopyEvent>,
    rows: Seq<Vec<CopyRow<V>>>,
    max_copy_rows: int,
    e: int,
)
    requires
        reading.p == t.modulus,
        region_fits(copy_events, rows, max_copy_rows),
        realizes(c, t, reading.val, c.layout_actions(copy_events, rows, max_copy_rows)),
        forall|i: int| #[trigger] r.eval(t, i) == base,
        unassigned_are_zero(c, t, copy_events),
        0 <= e < copy_events.len(),
        copy_events[e].bytes@.len() > 0,
        describes_copy(reading, base, copy_events[e], rows[e]@),
    ensures
        event_is_copy(c, r, t, copy_events, e),
{
    let event = copy_events[e];
    let start = rows_needed(copy_events, e as nat) as int;
    assert(rows_needed(copy_events, (e + 1) as nat) == start + 2 * event.bytes@.len());
    lemma_rows_needed_even(copy_events, e as nat);
    lemma_rows_needed_grow(copy_events, (e + 1) as nat, copy_events.len());
    assert forall|m: int| 0 <= m < 2 * event.bytes@.len() implies holds_row(
        c,
        t,
        reading.val,
        event,
        m,
        #[trigger] rows[e]@[m],
        start + m,
    ) by {
        assigned_events_hold_their_rows(
            c,
            t,
            reading.val,
            copy_events,
            rows,
            max_copy_rows,
            e,
            m,
        );
    }
    let (src, dst) = choose|src: CopyDataType, dst: CopyDataType| #[trigger]
        reading.describes(base, event, rows[e]@, src, dst);
    lemma_described_is_copy(c, r, t, reading, base, event, rows[e]@, src, dst, start);
}

/// An assigned row that is enabled holds a tag and the comparison of its own addresses.
proof fn lemma_assigned_row_is_valid<V>(
    c: CopyCircuitConfig,
    t: Trace,
    reading: Reading<V>,
    base: int,
    copy_events: Seq<CopyEvent>,
    rows: Seq<Vec<CopyRow<V>>>,
    max_copy_rows: int,
    i: int,
)
    requires
        reading.p == t.modulus,
        region_fits(copy_events, rows, max_copy_rows),
        realizes(c, t, reading.val, c.layout_actions(copy_events, rows, max_copy_rows)),
        forall|e: int|
            0 <= e < copy_events.len() && copy_events[e].bytes@.len() > 0 ==> #[trigger]
                describes_copy(reading, base, copy_events[e], rows[e]@),
        0 <= i < max_copy_rows - DISABLED_ROWS,
    ensures
        tag_valid(c, t, i),
        c.comparison().holds(t, i),
{
    let needed = rows_needed(copy_events, copy_events.len());
    assigned_rows_come_in_pairs(c, t, reading.val, copy_events, rows, max_copy_rows);
    assert(t.fixed_at(c.q_enable, i) == 1);
    lemma2_to64();
    lemma2_to64_rest();
    if i < needed {
        let e = lemma_locate(copy_events, copy_events.len(), i) as int;
        let event = copy_events[e];
        let start = rows_needed(copy_events, e as nat) as int;
        let m = i - start;
        lemma_rows_needed_even(copy_events, e as nat);
        assigned_events_hold_their_rows(
            c,
            t,
            reading.val,
            copy_events,
            rows,
            max_copy_rows,
            e,
            m,
        );
        assert(c.copy_table.tag.holds_tag(t, i, rows[e]@[m].tag));
        assert(describes_copy(reading, base, event, rows[e]@));
        let (src, dst) = choose|src: CopyDataType, dst: CopyDataType| #[trigger]
            reading.describes(base, event, rows[e]@, src, dst);
        assert(reading.describes_row(base, event, rows[e]@, src, dst, m));
        lemma_cells(c, t, reading, event, m, rows[e]@[m], i);
    } else {
        assigned_rest_is_padding(
            c,
            t,
            reading.val,
            copy_events,
            rows,
            max_copy_rows,
            i,
        );
        assert(is_padding_row(c, t, i));
        assert(c.copy_table.tag.holds_tag(t, i, CopyDataType::Padding));
    }
}

/// Copy events whose rows describe the copies of their bytes are accepted once they are assigned:
/// the region meets all gates, holds a tag in every enabled row, and compares every source address
/// with the end of the source as it should.
pub proof fn described_copies_are_accepted<V>(
    c: CopyCircuitConfig,
    r: Expression,
    t: Trace,
    reading: Reading<V>,
    base: int,
    copy_events: Seq<CopyEvent>,
    rows: Seq<Vec<CopyRow<V>>>,
    max_copy_rows: int,
)
    requires
        reading.p == t.modulus,
        region_fits(copy_events, rows, max_copy_rows),
        realizes(c, t, reading.val, c.layout_actions(copy_events, rows, max_copy_rows)),
        forall|i: int| #[trigger] r.eval(t, i) == base,
        unassigned_are_zero(c, t, copy_events),
        forall|e: int|
            0 <= e < copy_events.len() && copy_events[e].bytes@.len() > 0 ==> #[trigger]
                describes_copy(reading, base, copy_events[e], rows[e]@),
    ensures
        accepted(c, r, t, max_copy_rows - DISABLED_ROWS),
{
    let n = max_copy_rows - DISABLED_ROWS;
    assigned_rows_come_in_pairs(c, t, reading.val, copy_events, rows, max_copy_rows);
    assert forall|e: int|
        0 <= e < copy_events.len() && copy_events[e].bytes@.len() > 0 implies #[trigger]
    event_is_copy(c, r, t, copy_events, e) by {
        assert(describes_copy(reading, base, copy_events[e], rows[e]@));
        lemma_assigned_is_copy(
            c,
            r,
            t,
            reading,
            base,
            copy_events,
            rows,
            max_copy_rows,
            e,
        );
    }
    assert forall|i: int| 0 <= i < n implies #[trigger] gates_met(c, r, t, i) by {
        assigned_circuit_is_accepted(
            c,
            r,
            t,
            reading.val,
            copy_events,
            rows,
            max_copy_rows,
            i,
        );
    }
    assert forall|i: int| 0 <= i < n implies #[trigger] tag_valid(c, t, i) by {
        lemma_assigned_row_is_valid(
            c,
            t,
            reading,
            base,
            copy_events,
            rows,
            max_copy_rows,
            i,
        );
    }
    assert forall|i: int| 0 <= i < n implies #[trigger] c.comparison().holds(t, i) by {
        lemma_assigned_row_is_valid(
            c,
            t,
            reading,
            base,
            copy_events,
            rows,
            max_copy_rows,
            i,
        );
    }
}

} // verus!
