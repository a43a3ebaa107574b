//! What the assignment of copy events amounts to: a region that the circuit accepts.
use crate::assignment::{
    assigned_cells, is_read_only, lemma_rows_needed_grow, rows_match, rows_needed,
    sources_addressable, CopyEvent, CopyRow, DISABLED_ROWS, UNUSED_ROWS,
};
use crate::binary_number::CopyDataType;
use crate::completeness::{
    copy_is_accepted, disabled_rows_are_accepted, is_copy, is_copy_row, is_padding_row,
    padding_is_accepted,
};
use crate::config::CopyCircuitConfig;
use crate::constraint_system::{constraints_within, entries_within, Constraint};
use crate::expression::{AdviceColumn, Expression, FixedColumn, Selector};
use crate::region::{CellValue, Label, RegionAction};
use crate::soundness::{gates_met, laid_out};
use crate::trace::Trace;
use vstd::arithmetic::div_mod::*;
use vstd::prelude::*;

verus! {

/// The number that a cell is assigned, where `val` says what the given values stand for.
pub open spec fn cell_number<V>(val: spec_fn(V) -> int, value: CellValue<V>) -> int {
    match value {
        CellValue::Zero => 0,
        CellValue::One => 1,
        CellValue::Known(v) => val(v),
    }
}

/// Whether the trace shows that the step was carried out.
pub open spec fn carried_out<V>(t: Trace, val: spec_fn(V) -> int, action: RegionAction<V>) -> bool {
    match action {
        RegionAction::NameColumn { .. } => true,
        RegionAction::AssignAdvice { column, offset, value, .. } => t.advice_at(
            column,
            offset as int,
        ) == cell_number(val, value) % t.modulus,
        RegionAction::AssignFixed { column, offset, value, .. } => t.fixed_at(column, offset as int)
            == cell_number(val, value) % t.modulus,
        RegionAction::EnableSelector { selector, offset } => t.selected(selector, offset as int),
        RegionAction::AssignTag { chip, offset, tag } => chip.holds_tag(t, offset as int, tag),
        RegionAction::AssignLt { chip, offset, lhs, rhs } => t.advice_at(chip.lt, offset as int)
            == if lhs < rhs {
            1int
        } else {
            0
        },
    }
}

/// Whether the trace is the outcome of the steps: each was carried out, and the selector is on
/// only where a step turned it on.
pub open spec fn realizes<V>(
    c: CopyCircuitConfig,
    t: Trace,
    val: spec_fn(V) -> int,
    actions: Seq<RegionAction<V>>,
) -> bool {
    &&& t.wf()
    &&& forall|k: int| 0 <= k < actions.len() ==> carried_out(t, val, #[trigger] actions[k])
    &&& forall|row: int| #[trigger]
        t.selected(c.q_step, row) ==> exists|k: int|
            0 <= k < actions.len() && turns_on(#[trigger] actions[k], row)
}

/// Whether the step turns a selector on at `row`.
pub open spec fn turns_on<V>(action: RegionAction<V>, row: int) -> bool {
    action matches RegionAction::EnableSelector { offset, .. } && offset == row
}

/// Whether all steps of a part are carried out.
spec fn all_carried_out<V>(
    t: Trace,
    val: spec_fn(V) -> int,
    actions: Seq<RegionAction<V>>,
) -> bool {
    forall|k: int| 0 <= k < actions.len() ==> carried_out(t, val, #[trigger] actions[k])
}

/// Whether a part turns selectors on at even rows below `bound` only.
spec fn steps_within<V>(actions: Seq<RegionAction<V>>, bound: int) -> bool {
    forall|k: int, row: int|
        0 <= k < actions.len() && #[trigger] turns_on(actions[k], row) ==> row % 2 == 0 && row
            < bound
}

/// Both halves of a list of steps are carried out if the whole is.
proof fn lemma_halves<V>(
    t: Trace,
    val: spec_fn(V) -> int,
    left: Seq<RegionAction<V>>,
    right: Seq<RegionAction<V>>,
)
    requires
        all_carried_out(t, val, left + right),
    ensures
        all_carried_out(t, val, left),
        all_carried_out(t, val, right),
{
    assert forall|k: int| 0 <= k < left.len() implies carried_out(t, val, #[trigger] left[k]) by {
        assert((left + right)[k] == left[k]);
    }
    assert forall|k: int| 0 <= k < right.len() implies carried_out(t, val, #[trigger] right[k]) by {
        assert((left + right)[left.len() + k] == right[k]);
    }
}

/// A list of steps turns selectors on within a bound if both its halves do.
proof fn lemma_steps_join<V>(
    left: Seq<RegionAction<V>>,
    right: Seq<RegionAction<V>>,
    bound: int,
)
    requires
        steps_within(left, bound),
        steps_within(right, bound),
    ensures
        steps_within(left + right, bound),
{
    assert forall|k: int, row: int|
        0 <= k < (left + right).len() && #[trigger] turns_on((left + right)[k], row) implies row % 2
        == 0 && row < bound by {
        if k < left.len() {
            assert(turns_on(left[k], row));
        } else {
            assert(turns_on(right[k - left.len()], row));
        }
    }
}

/// A padding row whose steps are carried out is one.
proof fn lemma_padding_row<V>(
    c: CopyCircuitConfig,
    t: Trace,
    val: spec_fn(V) -> int,
    offset: usize,
    enabled: bool,
)
    requires
        t.wf(),
        all_carried_out(t, val, c.padding_actions::<V>(offset, enabled)),
    ensures
        is_padding_row(c, t, offset as int),
        t.fixed_at(c.q_enable, offset as int) == if enabled {
            1int
        } else {
            0
        },
        enabled && offset % 2 == 0 ==> c.is_step(t, offset as int),
{
    let actions = c.padding_actions::<V>(offset, enabled);
    let lead: int = if enabled && offset % 2 == 0 {
        2
    } else {
        1
    };
    lemma_small_mod(0, t.modulus as nat);
    lemma_small_mod(1, t.modulus as nat);
    assert(carried_out(t, val, actions[0]));
    if enabled && offset % 2 == 0 {
        assert(carried_out(t, val, actions[1]));
    }
    let cells = c.padding_cells::<V>();
    assert forall|k: int| 0 <= k < 14 implies t.advice_at((#[trigger] cells[k]).0, offset as int)
        == cell_number(val, cells[k].2) % t.modulus by {
        assert(carried_out(t, val, actions[lead + k]));
    }
    assert(cells[0].0 == c.copy_table.is_first);
    assert(cells[1].0 == c.is_last);
    assert(cells[2].0 == c.copy_table.id.lo);
    assert(cells[3].0 == c.copy_table.id.hi);
    assert(cells[4].0 == c.copy_table.addr);
    assert(cells[5].0 == c.copy_table.src_addr_end);
    assert(cells[6].0 == c.copy_table.bytes_left);
    assert(cells[7].0 == c.value);
    assert(cells[8].0 == c.value_acc_rlc);
    assert(cells[9].0 == c.copy_table.rlc_acc);
    assert(cells[10].0 == c.is_code);
    assert(cells[11].0 == c.is_pad);
    assert(cells[12].0 == c.copy_table.rw_counter);
    assert(cells[13].0 == c.copy_table.rwc_inc_left);
    assert(carried_out(t, val, actions[lead + 14]));
    assert(carried_out(t, val, actions[lead + 15]));
}

/// Padding rows whose steps are carried out are padding rows.
proof fn lemma_filler<V>(
    c: CopyCircuitConfig,
    t: Trace,
    val: spec_fn(V) -> int,
    start: int,
    enabled: bool,
    n: nat,
    row: int,
)
    requires
        t.wf(),
        all_carried_out(t, val, c.filler_actions::<V>(start, enabled, n)),
        0 <= start <= row < start + n <= usize::MAX,
    ensures
        is_padding_row(c, t, row),
        t.fixed_at(c.q_enable, row) == if enabled {
            1int
        } else {
            0
        },
        enabled && row % 2 == 0 ==> c.is_step(t, row),
    decreases n,
{
    let before = c.filler_actions::<V>(start, enabled, (n - 1) as nat);
    let here = c.padding_actions::<V>((start + n - 1) as usize, enabled);
    lemma_halves(t, val, before, here);
    if row == start + n - 1 {
        lemma_padding_row(c, t, val, row as usize, enabled);
    } else {
        lemma_filler(c, t, val, start, enabled, (n - 1) as nat, row);
    }
}

/// Padding rows turn the step selector on at even rows among them only, and only if enabled.
proof fn lemma_filler_steps<V>(
    c: CopyCircuitConfig,
    start: int,
    enabled: bool,
    n: nat,
    bound: int,
)
    requires
        0 <= start,
        start + n <= usize::MAX,
        enabled ==> start + n <= bound,
    ensures
        steps_within(c.filler_actions::<V>(start, enabled, n), bound),
    decreases n,
{
    if n > 0 {
        let before = c.filler_actions::<V>(start, enabled, (n - 1) as nat);
        let here = c.padding_actions::<V>((start + n - 1) as usize, enabled);
        lemma_filler_steps::<V>(c, start, enabled, (n - 1) as nat, bound);
        assert(steps_within(here, bound));
        lemma_steps_join(before, here, bound);
    }
}

/// Whether the row `offset` of the trace holds the values of the `step_idx`-th row of an event.
pub open spec fn holds_row<V>(
    c: CopyCircuitConfig,
    t: Trace,
    val: spec_fn(V) -> int,
    event: CopyEvent,
    step_idx: int,
    row: CopyRow<V>,
    offset: int,
) -> bool {
    let is_read = step_idx % 2 == 0;
    &&& t.fixed_at(c.q_enable, offset) == 1
    &&& is_read ==> c.is_step(t, offset)
    &&& c.copy_table.tag.holds_tag(t, offset, row.tag)
    &&& is_read ==> c.lt_at(t, offset) == if event.src_addr + step_idx / 2 < event.src_addr_end {
        1int
    } else {
        0
    }
    &&& forall|k: int|
        0 <= k < 9 && (is_read || (row.table_row@[k].1 != Label::SrcAddrEnd && row.table_row@[k].1
            != Label::BytesLeft)) ==> t.advice_at(
            #[trigger] c.copy_table.spec_advice_columns()[k],
            offset,
        ) == val(row.table_row@[k].0) % t.modulus
    &&& forall|k: int|
        0 <= k < 5 ==> t.advice_at(#[trigger] c.circuit_columns()[k], offset) == val(
            row.circuit_row@[k].0,
        ) % t.modulus
}

/// An event's row whose steps are carried out holds the row's values.
proof fn lemma_event_row<V>(
    c: CopyCircuitConfig,
    t: Trace,
    val: spec_fn(V) -> int,
    event: CopyEvent,
    step_idx: int,
    row: CopyRow<V>,
    offset: usize,
)
    requires
        t.wf(),
        step_idx >= 0,
        event.src_addr + step_idx / 2 <= u64::MAX,
        all_carried_out(t, val, c.row_actions(event, step_idx, row, offset)),
    ensures
        holds_row(c, t, val, event, step_idx, row, offset as int),
{
    let is_read = step_idx % 2 == 0;
    let actions = c.row_actions(event, step_idx, row, offset);
    let columns = c.copy_table.spec_advice_columns();
    let table_cells = assigned_cells(columns, row.table_row@, offset);
    let keep = |action: RegionAction<V>| is_read || !is_read_only(action);
    let kept = table_cells.filter(keep);
    lemma_small_mod(1, t.modulus as nat);
    let lead = kept.len() + if is_read {
        1int
    } else {
        0
    };
    assert forall|k: int| 0 <= k < kept.len() implies carried_out(t, val, #[trigger] kept[k]) by {
        assert(actions[k] == kept[k]);
    }
    assert forall|k: int|
        0 <= k < 9 && (is_read || (row.table_row@[k].1 != Label::SrcAddrEnd && row.table_row@[k].1
            != Label::BytesLeft)) implies t.advice_at(#[trigger] columns[k], offset as int) == val(
        row.table_row@[k].0,
    ) % t.modulus by {
        assert(keep(table_cells[k]));
        table_cells.lemma_filter_contains(keep, k);
        assert(carried_out(t, val, table_cells[k]));
    }
    if is_read {
        assert(carried_out(t, val, actions[kept.len() as int]));
    }
    assert(carried_out(t, val, actions[lead]));
    let circuit_cells = assigned_cells(c.circuit_columns(), row.circuit_row@, offset);
    assert forall|k: int| 0 <= k < 5 implies t.advice_at(
        #[trigger] c.circuit_columns()[k],
        offset as int,
    ) == val(row.circuit_row@[k].0) % t.modulus by {
        assert(actions[lead + 1 + k] == circuit_cells[k]);
        assert(carried_out(t, val, actions[lead + 1 + k]));
    }
    assert(carried_out(t, val, actions[lead + 6]));
    if is_read {
        assert(carried_out(t, val, actions[lead + 7]));
    }
}

/// The rows of an event whose steps are carried out hold the rows' values.
proof fn lemma_event<V>(
    c: CopyCircuitConfig,
    t: Trace,
    val: spec_fn(V) -> int,
    event: CopyEvent,
    rows: Seq<CopyRow<V>>,
    start: int,
    n: nat,
    m: int,
)
    requires
        t.wf(),
        all_carried_out(t, val, c.event_actions(event, rows, start, n)),
        0 <= m < n,
        0 <= start,
        start + n <= usize::MAX,
        event.src_addr + (n - 1) / 2 <= u64::MAX,
    ensures
        holds_row(c, t, val, event, m, rows[m], start + m),
    decreases n,
{
    let before = c.event_actions(event, rows, start, (n - 1) as nat);
    let here = c.row_actions(event, n - 1, rows[n - 1], (start + n - 1) as usize);
    lemma_halves(t, val, before, here);
    if m == n - 1 {
        lemma_event_row(c, t, val, event, m, rows[m], (start + m) as usize);
    } else {
        lemma_event(c, t, val, event, rows, start, (n - 1) as nat, m);
    }
}

/// The rows of an event that starts at an even row turn the step selector on at even rows only.
proof fn lemma_event_steps<V>(
    c: CopyCircuitConfig,
    event: CopyEvent,
    rows: Seq<CopyRow<V>>,
    start: int,
    n: nat,
    bound: int,
)
    requires
        0 <= start,
        start % 2 == 0,
        start + n <= usize::MAX,
        start + n <= bound,
    ensures
        steps_within(c.event_actions(event, rows, start, n), bound),
    decreases n,
{
    if n > 0 {
        let before = c.event_actions(event, rows, start, (n - 1) as nat);
        let row = rows[n - 1];
        let offset = (start + n - 1) as usize;
        let here = c.row_actions(event, n - 1, row, offset);
        let is_read = (n - 1) % 2 == 0;
        let table_cells = assigned_cells(
            c.copy_table.spec_advice_columns(),
            row.table_row@,
            offset,
        );
        let keep = |action: RegionAction<V>| is_read || !is_read_only(action);
        let kept = table_cells.filter(keep);
        assert forall|k: int| 0 <= k < kept.len() implies (#[trigger] kept[k]) is AssignAdvice by {
            assert(kept.contains(kept[k]));
            table_cells.lemma_filter_contains_rev(keep, kept[k]);
        }
        lemma_event_steps(c, event, rows, start, (n - 1) as nat, bound);
        assert(steps_within(here, bound)) by {
            assert forall|k: int, row: int|
                0 <= k < here.len() && #[trigger] turns_on(here[k], row) implies row % 2 == 0 && row
                < bound by {
                if k < kept.len() {
                    assert(here[k] == kept[k]);
                }
            }
        }
        lemma_steps_join(before, here, bound);
    }
}

/// The number of rows of copy events is even.
pub proof fn lemma_rows_needed_even(copy_events: Seq<CopyEvent>, n: nat)
    ensures
        rows_needed(copy_events, n) % 2 == 0,
    decreases n,
{
    if n > 0 {
        lemma_rows_needed_even(copy_events, (n - 1) as nat);
    }
}

/// The first event that has not ended by the row `i`.
pub proof fn lemma_locate(copy_events: Seq<CopyEvent>, n: nat, i: int) -> (e: nat)
    requires
        0 <= i < rows_needed(copy_events, n),
    ensures
        e < n,
        rows_needed(copy_events, e) <= i < rows_needed(copy_events, e + 1),
    decreases n,
{
    if i < rows_needed(copy_events, (n - 1) as nat) {
        lemma_locate(copy_events, (n - 1) as nat, i)
    } else {
        (n - 1) as nat
    }
}

/// What the events' steps say of the rows that they are carried out in.
proof fn lemma_events<V>(
    c: CopyCircuitConfig,
    t: Trace,
    val: spec_fn(V) -> int,
    copy_events: Seq<CopyEvent>,
    rows: Seq<Vec<CopyRow<V>>>,
    n: nat,
    e: int,
    m: int,
)
    requires
        t.wf(),
        rows_match(copy_events, rows),
        sources_addressable(copy_events),
        n <= copy_events.len(),
        rows_needed(copy_events, n) <= usize::MAX,
        all_carried_out(t, val, c.events_actions(copy_events, rows, n)),
        0 <= e < n,
        0 <= m < 2 * copy_events[e].bytes@.len(),
    ensures
        holds_row(
            c,
            t,
            val,
            copy_events[e],
            m,
            rows[e]@[m],
            rows_needed(copy_events, e as nat) + m,
        ),
    decreases n,
{
    let start = rows_needed(copy_events, (n - 1) as nat) as int;
    let before = c.events_actions(copy_events, rows, (n - 1) as nat);
    let here = c.event_actions(copy_events[n - 1], rows[n - 1]@, start, rows[n - 1]@.len());
    lemma_halves(t, val, before, here);
    if e == n - 1 {
        lemma_event(c, t, val, copy_events[e], rows[e]@, start, rows[e]@.len(), m);
    } else {
        lemma_events(c, t, val, copy_events, rows, (n - 1) as nat, e, m);
    }
}

/// Events turn the step selector on at even rows among their own only.
proof fn lemma_events_steps<V>(
    c: CopyCircuitConfig,
    copy_events: Seq<CopyEvent>,
    rows: Seq<Vec<CopyRow<V>>>,
    n: nat,
    bound: int,
)
    requires
        rows_match(copy_events, rows),
        n <= copy_events.len(),
        rows_needed(copy_events, n) <= usize::MAX,
        rows_needed(copy_events, n) <= bound,
    ensures
        steps_within(c.events_actions(copy_events, rows, n), bound),
    decreases n,
{
    if n > 0 {
        let start = rows_needed(copy_events, (n - 1) as nat) as int;
        let before = c.events_actions(copy_events, rows, (n - 1) as nat);
        let here = c.event_actions(copy_events[n - 1], rows[n - 1]@, start, rows[n - 1]@.len());
        lemma_rows_needed_even(copy_events, (n - 1) as nat);
        assert(rows[n - 1]@.len() == 2 * copy_events[n - 1].bytes@.len());
        lemma_events_steps(c, copy_events, rows, (n - 1) as nat, bound);
        lemma_event_steps(c, copy_events[n - 1], rows[n - 1]@, start, rows[n - 1]@.len(), bound);
        lemma_steps_join(before, here, bound);
    }
}

/// Whether copy events, with the values of their rows, fit into a region of `max_copy_rows` rows.
pub open spec fn region_fits<V>(
    copy_events: Seq<CopyEvent>,
    rows: Seq<Vec<CopyRow<V>>>,
    max_copy_rows: int,
) -> bool {
    &&& rows_match(copy_events, rows)
    &&& sources_addressable(copy_events)
    &&& rows_needed(copy_events, copy_events.len()) + DISABLED_ROWS + UNUSED_ROWS <= max_copy_rows
        <= usize::MAX
    &&& max_copy_rows % 2 == 0
}

/// The rows of the copy events with the unused and the disabled ones are the least region that
/// the events can be assigned to, and the events fit into it.
pub proof fn minimum_region_fits<V>(
    copy_events: Seq<CopyEvent>,
    rows: Seq<Vec<CopyRow<V>>>,
    max_copy_rows: int,
)
    requires
        rows_match(copy_events, rows),
        sources_addressable(copy_events),
    ensures
        ({
            let minimum = rows_needed(copy_events, copy_events.len()) + DISABLED_ROWS
                + UNUSED_ROWS;
            &&& minimum <= usize::MAX ==> region_fits(copy_events, rows, minimum)
            &&& region_fits(copy_events, rows, max_copy_rows) ==> minimum <= max_copy_rows
        }),
{
    lemma_rows_needed_even(copy_events, copy_events.len());
}

/// The parts of a region's steps, when all of them are carried out.
proof fn lemma_parts<V>(
    c: CopyCircuitConfig,
    t: Trace,
    val: spec_fn(V) -> int,
    copy_events: Seq<CopyEvent>,
    rows: Seq<Vec<CopyRow<V>>>,
    max_copy_rows: int,
)
    requires
        realizes(c, t, val, c.layout_actions(copy_events, rows, max_copy_rows)),
    ensures
        ({
            let needed = rows_needed(copy_events, copy_events.len()) as int;
            let enabled_rows = max_copy_rows - DISABLED_ROWS;
            &&& all_carried_out(t, val, c.events_actions(copy_events, rows, copy_events.len()))
            &&& all_carried_out(
                t,
                val,
                c.filler_actions(needed, true, (enabled_rows - needed) as nat),
            )
            &&& all_carried_out(t, val, c.filler_actions(enabled_rows, false, DISABLED_ROWS as nat))
        }),
{
    let needed = rows_needed(copy_events, copy_events.len()) as int;
    let enabled_rows = max_copy_rows - DISABLED_ROWS;
    let names = seq![
        RegionAction::<V>::NameColumn { column: c.is_last, name: "is_last" },
        RegionAction::<V>::NameColumn { column: c.value, name: "value" },
        RegionAction::<V>::NameColumn { column: c.is_code, name: "is_code" },
        RegionAction::<V>::NameColumn { column: c.is_pad, name: "is_pad" },
    ];
    let events = c.events_actions(copy_events, rows, copy_events.len());
    let filler = c.filler_actions::<V>(needed, true, (enabled_rows - needed) as nat);
    let disabled = c.filler_actions::<V>(enabled_rows, false, DISABLED_ROWS as nat);
    lemma_halves(t, val, names + events + filler, disabled);
    lemma_halves(t, val, names + events, filler);
    lemma_halves(t, val, names, events);
}

/// Each row of each event ends up where the rows of the events before it leave off, with its
/// values.
pub proof fn assigned_events_hold_their_rows<V>(
    c: CopyCircuitConfig,
    t: Trace,
    val: spec_fn(V) -> int,
    copy_events: Seq<CopyEvent>,
    rows: Seq<Vec<CopyRow<V>>>,
    max_copy_rows: int,
    e: int,
    m: int,
)
    requires
        region_fits(copy_events, rows, max_copy_rows),
        realizes(c, t, val, c.layout_actions(copy_events, rows, max_copy_rows)),
        0 <= e < copy_events.len(),
        0 <= m < 2 * copy_events[e].bytes@.len(),
    ensures
        holds_row(
            c,
            t,
            val,
            copy_events[e],
            m,
            rows[e]@[m],
            rows_needed(copy_events, e as nat) + m,
        ),
{
    lemma_parts(c, t, val, copy_events, rows, max_copy_rows);
    lemma_events(c, t, val, copy_events, rows, copy_events.len(), e, m);
}

/// All rows after those of the events hold padding: at least two that are enabled, and two that
/// are disabled.
pub proof fn assigned_rest_is_padding<V>(
    c: CopyCircuitConfig,
    t: Trace,
    val: spec_fn(V) -> int,
    copy_events: Seq<CopyEvent>,
    rows: Seq<Vec<CopyRow<V>>>,
    max_copy_rows: int,
    row: int,
)
    requires
        region_fits(copy_events, rows, max_copy_rows),
        realizes(c, t, val, c.layout_actions(copy_events, rows, max_copy_rows)),
        rows_needed(copy_events, copy_events.len()) <= row < max_copy_rows,
    ensures
        is_padding_row(c, t, row),
        t.fixed_at(c.q_enable, row) == if row < max_copy_rows - DISABLED_ROWS {
            1int
        } else {
            0
        },
        row < max_copy_rows - DISABLED_ROWS && row % 2 == 0 ==> c.is_step(t, row),
{
    let needed = rows_needed(copy_events, copy_events.len()) as int;
    let enabled_rows = max_copy_rows - DISABLED_ROWS;
    lemma_parts(c, t, val, copy_events, rows, max_copy_rows);
    if row < enabled_rows {
        lemma_filler(c, t, val, needed, true, (enabled_rows - needed) as nat, row);
    } else {
        lemma_filler(c, t, val, enabled_rows, false, DISABLED_ROWS as nat, row);
    }
}

/// An assigned region enables all its rows but the last two, in pairs of a read row, which is a
/// step, and a write row, which is not.
pub proof fn assigned_rows_come_in_pairs<V>(
    c: CopyCircuitConfig,
    t: Trace,
    val: spec_fn(V) -> int,
    copy_events: Seq<CopyEvent>,
    rows: Seq<Vec<CopyRow<V>>>,
    max_copy_rows: int,
)
    requires
        region_fits(copy_events, rows, max_copy_rows),
        realizes(c, t, val, c.layout_actions(copy_events, rows, max_copy_rows)),
    ensures
        laid_out(c, t, max_copy_rows - DISABLED_ROWS),
{
    let needed = rows_needed(copy_events, copy_events.len()) as int;
    let n = max_copy_rows - DISABLED_ROWS;
    let names = seq![
        RegionAction::<V>::NameColumn { column: c.is_last, name: "is_last" },
        RegionAction::<V>::NameColumn { column: c.value, name: "value" },
        RegionAction::<V>::NameColumn { column: c.is_code, name: "is_code" },
        RegionAction::<V>::NameColumn { column: c.is_pad, name: "is_pad" },
    ];
    let events = c.events_actions(copy_events, rows, copy_events.len());
    let filler = c.filler_actions::<V>(needed, true, (n - needed) as nat);
    let disabled = c.filler_actions::<V>(n, false, DISABLED_ROWS as nat);
    lemma_events_steps(c, copy_events, rows, copy_events.len(), n);
    lemma_filler_steps::<V>(c, needed, true, (n - needed) as nat, n);
    lemma_filler_steps::<V>(c, n, false, DISABLED_ROWS as nat, n);
    assert(steps_within(names, n));
    lemma_steps_join(names, events, n);
    lemma_steps_join(names + events, filler, n);
    lemma_steps_join(names + events + filler, disabled, n);
    let actions = c.layout_actions(copy_events, rows, max_copy_rows);
    assert(steps_within(actions, n));
    assert forall|i: int| c.is_step(t, i) implies i % 2 == 0 && i < n by {
        let k = choose|k: int| 0 <= k < actions.len() && turns_on(#[trigger] actions[k], i);
        assert(turns_on(actions[k], i));
    }
    assert forall|i: int| 0 <= i < n implies #[trigger] t.fixed_at(c.q_enable, i) == 1 && (
    c.is_step(t, i) <==> i % 2 == 0) by {
        if i < needed {
            let e = lemma_locate(copy_events, copy_events.len(), i);
            let m = i - rows_needed(copy_events, e);
            lemma_rows_needed_even(copy_events, e);
            assigned_events_hold_their_rows(
                c,
                t,
                val,
                copy_events,
                rows,
                max_copy_rows,
                e as int,
                m,
            );
        } else {
            assigned_rest_is_padding(c, t, val, copy_events, rows, max_copy_rows, i);
        }
    }
    assert forall|i: int| n <= i < n + 2 implies #[trigger] t.fixed_at(c.q_enable, i) == 0
        && !c.is_step(t, i) by {
        assigned_rest_is_padding(c, t, val, copy_events, rows, max_copy_rows, i);
    }
}

/// Whether the rows that the `e`-th event is assigned to are a copy of its bytes.
pub open spec fn event_is_copy(
    c: CopyCircuitConfig,
    r: Expression,
    t: Trace,
    copy_events: Seq<CopyEvent>,
    e: int,
) -> bool {
    exists|src: CopyDataType, dst: CopyDataType| #[trigger]
        is_copy(
            c,
            r,
            t,
            rows_needed(copy_events, e as nat) as int,
            copy_events[e].bytes@.len() as int,
            src,
            dst,
        )
}

/// No read row of an assigned region ends an event.
proof fn lemma_reads_are_not_last<V>(
    c: CopyCircuitConfig,
    r: Expression,
    t: Trace,
    val: spec_fn(V) -> int,
    copy_events: Seq<CopyEvent>,
    rows: Seq<Vec<CopyRow<V>>>,
    max_copy_rows: int,
    i: int,
)
    requires
        region_fits(copy_events, rows, max_copy_rows),
        realizes(c, t, val, c.layout_actions(copy_events, rows, max_copy_rows)),
        forall|e: int|
            0 <= e < copy_events.len() && copy_events[e].bytes@.len() > 0 ==> #[trigger]
                event_is_copy(c, r, t, copy_events, e),
        0 <= i < max_copy_rows,
        i % 2 == 0,
    ensures
        c.last_at(t, i) == 0,
{
    if i < rows_needed(copy_events, copy_events.len()) {
        let e = lemma_locate(copy_events, copy_events.len(), i);
        assert(event_is_copy(c, r, t, copy_events, e as int));
        let start = rows_needed(copy_events, e) as int;
        let steps = copy_events[e as int].bytes@.len() as int;
        let (src, dst) = choose|src: CopyDataType, dst: CopyDataType| #[trigger]
            is_copy(c, r, t, start, steps, src, dst);
        assert(is_copy_row(c, r, t, start, steps, src, dst, i));
    } else {
        assigned_rest_is_padding(c, t, val, copy_events, rows, max_copy_rows, i);
    }
}

/// Where the rows of every event are a copy of its bytes, the assigned region passes all gates in
/// every row, up to the padding and into it.
pub proof fn assigned_circuit_is_accepted<V>(
    c: CopyCircuitConfig,
    r: Expression,
    t: Trace,
    val: spec_fn(V) -> int,
    copy_events: Seq<CopyEvent>,
    rows: Seq<Vec<CopyRow<V>>>,
    max_copy_rows: int,
    i: int,
)
    requires
        region_fits(copy_events, rows, max_copy_rows),
        realizes(c, t, val, c.layout_actions(copy_events, rows, max_copy_rows)),
        forall|e: int|
            0 <= e < copy_events.len() && copy_events[e].bytes@.len() > 0 ==> #[trigger]
                event_is_copy(c, r, t, copy_events, e),
        0 <= i < max_copy_rows,
    ensures
        gates_met(c, r, t, i),
{
    let n = max_copy_rows - DISABLED_ROWS;
    let needed = rows_needed(copy_events, copy_events.len());
    assigned_rows_come_in_pairs(c, t, val, copy_events, rows, max_copy_rows);
    if i < needed {
        let e = lemma_locate(copy_events, copy_events.len(), i);
        assert(event_is_copy(c, r, t, copy_events, e as int));
        let start = rows_needed(copy_events, e) as int;
        let steps = copy_events[e as int].bytes@.len() as int;
        let (src, dst) = choose|src: CopyDataType, dst: CopyDataType| #[trigger]
            is_copy(c, r, t, start, steps, src, dst);
        lemma_rows_needed_even(copy_events, e + 1);
        lemma_rows_needed_grow(copy_events, e + 1, copy_events.len());
        lemma_reads_are_not_last(
            c,
            r,
            t,
            val,
            copy_events,
            rows,
            max_copy_rows,
            start + 2 * steps,
        );
        copy_is_accepted(c, r, t, n, start, steps, src, dst, i);
    } else if i >= n {
        assert(t.fixed_at(c.q_enable, i) == 0);
        disabled_rows_are_accepted(c, r, t, i);
    } else {
        assigned_rest_is_padding(c, t, val, copy_events, rows, max_copy_rows, i);
        assigned_rest_is_padding(c, t, val, copy_events, rows, max_copy_rows, i + 1);
        if i % 2 == 0 {
            assigned_rest_is_padding(c, t, val, copy_events, rows, max_copy_rows, i + 2);
        }
        padding_is_accepted(c, r, t, n, i);
    }
}

/// Whether two traces over one field hold the same in the rows from `low` to `high`.
pub open spec fn agree(t: Trace, u: Trace, low: int, high: int) -> bool {
    &&& t.modulus == u.modulus
    &&& forall|index: usize| #[trigger] t.challenge(index) == u.challenge(index)
    &&& forall|column: AdviceColumn, row: int|
        low <= row <= high ==> #[trigger] t.advice_at(column, row) == u.advice_at(column, row)
    &&& forall|column: FixedColumn, row: int|
        low <= row <= high ==> #[trigger] t.fixed_at(column, row) == u.fixed_at(column, row)
    &&& forall|selector: Selector, row: int|
        low <= row <= high ==> #[trigger] t.selected(selector, row) == u.selected(selector, row)
}

/// An expression that stays within two rows below the current one stands for the same wherever
/// those rows hold the same.
proof fn lemma_eval_is_local(e: Expression, t: Trace, u: Trace, i: int)
    requires
        e.rotations_within(0, 2),
        agree(t, u, i, i + 2),
    ensures
        e.eval(t, i) == e.eval(u, i),
    decreases e,
{
    match e {
        Expression::Negated(inner) => {
            lemma_eval_is_local(*inner, t, u, i);
        },
        Expression::Sum(left, right) => {
            lemma_eval_is_local(*left, t, u, i);
            lemma_eval_is_local(*right, t, u, i);
        },
        Expression::Product(left, right) => {
            lemma_eval_is_local(*left, t, u, i);
            lemma_eval_is_local(*right, t, u, i);
        },
        _ => {},
    }
}

/// Rows before the disabled ones at the region's end do not query beyond the region: whether a
/// constraint that stays within two rows below the current one holds there depends on the region's
/// own rows alone.
pub proof fn enabled_rows_query_the_region(
    constraints: Seq<Constraint>,
    t: Trace,
    u: Trace,
    max_copy_rows: int,
    i: int,
    j: int,
)
    requires
        constraints_within(constraints, 0, 2),
        agree(t, u, 0, max_copy_rows - 1),
        0 <= i < max_copy_rows - DISABLED_ROWS,
        0 <= j < constraints.len(),
    ensures
        constraints[j].holds(t, i) == constraints[j].holds(u, i),
{
    lemma_eval_is_local(constraints[j].poly, t, u, i);
}

/// Rows before the disabled ones at the region's end look nothing up from beyond the region: what
/// a lookup that stays within two rows below the current one looks up there depends on the
/// region's own rows alone.
pub proof fn enabled_rows_look_up_the_region(
    entries: Seq<(Expression, Expression)>,
    t: Trace,
    u: Trace,
    max_copy_rows: int,
    i: int,
    k: int,
)
    requires
        entries_within(entries, 0, 2),
        agree(t, u, 0, max_copy_rows - 1),
        0 <= i < max_copy_rows - DISABLED_ROWS,
        0 <= k < entries.len(),
    ensures
        entries[k].0.eval(t, i) == entries[k].0.eval(u, i),
{
    lemma_eval_is_local(entries[k].0, t, u, i);
}

} // verus!
