//! What filling rows in assigns: every cell that it should, with the value that it should, and
//! nothing else.
use crate::assignment::{
    assigned_cells, is_read_only, lemma_rows_needed_grow, rows_match, rows_needed,
    sources_addressable, CopyEvent, CopyRow, DISABLED_ROWS,
};
use crate::binary_number::CopyDataType;
use crate::circuit::CopyCircuit;
use crate::config::CopyCircuitConfig;
use crate::expression::AdviceColumn;
use crate::described::{describes_copy, Reading};
use crate::layout::{
    assigned_events_hold_their_rows, assigned_rest_is_padding, assigned_rows_come_in_pairs,
    lemma_locate, lemma_rows_needed_even, realizes, region_fits,
};
use crate::region::{Annotation, CellValue, Label, Layouter, LayouterAction, Region, RegionAction};
use crate::trace::Trace;
use vstd::prelude::*;

verus! {

/// The row that a step assigns something in, if it does.
pub open spec fn row_of<V>(action: RegionAction<V>) -> Option<int> {
    match action {
        RegionAction::NameColumn { .. } => None,
        RegionAction::AssignAdvice { offset, .. } => Some(offset as int),
        RegionAction::AssignFixed { offset, .. } => Some(offset as int),
        RegionAction::EnableSelector { offset, .. } => Some(offset as int),
        RegionAction::AssignTag { offset, .. } => Some(offset as int),
        RegionAction::AssignLt { offset, .. } => Some(offset as int),
    }
}

/// The column of the cell that a label stands for.
pub open spec fn column_of(c: CopyCircuitConfig, label: Label) -> Option<AdviceColumn> {
    match label {
        Label::IsFirst => Some(c.copy_table.is_first),
        Label::IdLo => Some(c.copy_table.id.lo),
        Label::IdHi => Some(c.copy_table.id.hi),
        Label::Addr => Some(c.copy_table.addr),
        Label::SrcAddrEnd => Some(c.copy_table.src_addr_end),
        Label::BytesLeft => Some(c.copy_table.bytes_left),
        Label::RlcAcc => Some(c.copy_table.rlc_acc),
        Label::RwCounter => Some(c.copy_table.rw_counter),
        Label::RwcIncLeft => Some(c.copy_table.rwc_inc_left),
        Label::IsLast => Some(c.is_last),
        Label::Value => Some(c.value),
        Label::ValueAccRlc => Some(c.value_acc_rlc),
        Label::IsPad => Some(c.is_pad),
        Label::IsCode => Some(c.is_code),
        Label::QEnable => None,
    }
}

/// The place of a label's cell among those of a padding row.
spec fn place_of(label: Label) -> int {
    match label {
        Label::IsFirst => 0,
        Label::IsLast => 1,
        Label::IdLo => 2,
        Label::IdHi => 3,
        Label::Addr => 4,
        Label::SrcAddrEnd => 5,
        Label::BytesLeft => 6,
        Label::Value => 7,
        Label::ValueAccRlc => 8,
        Label::RlcAcc => 9,
        Label::IsCode => 10,
        Label::IsPad => 11,
        Label::RwCounter => 12,
        Label::RwcIncLeft => 13,
        Label::QEnable => 14,
    }
}

/// The items of two lists one after the other are those of either.
proof fn lemma_either<T>(left: Seq<T>, right: Seq<T>, item: T)
    ensures
        (left + right).contains(item) <==> left.contains(item) || right.contains(item),
{
    if left.contains(item) {
        let k = choose|k: int| 0 <= k < left.len() && left[k] == item;
        assert((left + right)[k] == item);
    }
    if right.contains(item) {
        let k = choose|k: int| 0 <= k < right.len() && right[k] == item;
        assert((left + right)[left.len() + k] == item);
    }
    if (left + right).contains(item) {
        let k = choose|k: int| 0 <= k < (left + right).len() && (left + right)[k] == item;
        if k < left.len() {
            assert(left[k] == item);
        } else {
            assert(right[k - left.len()] == item);
        }
    }
}

/// Whether a step is one of a padding row's.
spec fn in_padding<V>(
    c: CopyCircuitConfig,
    row: usize,
    enabled: bool,
    action: RegionAction<V>,
) -> bool {
    match action {
        RegionAction::NameColumn { .. } => false,
        RegionAction::AssignAdvice { annotation, column, offset, value } => {
            &&& offset == row
            &&& annotation matches Annotation::Padding(label) && column_of(c, label) == Some(column)
                && value == if label == Label::SrcAddrEnd {
                CellValue::<V>::One
            } else {
                CellValue::<V>::Zero
            }
        },
        RegionAction::AssignFixed { annotation, column, offset, value } => {
            &&& offset == row
            &&& annotation == Annotation::Plain(Label::QEnable)
            &&& column == c.q_enable
            &&& value == if enabled {
                CellValue::<V>::One
            } else {
                CellValue::<V>::Zero
            }
        },
        RegionAction::EnableSelector { selector, offset } => {
            &&& offset == row
            &&& selector == c.q_step
            &&& enabled
            &&& row % 2 == 0
        },
        RegionAction::AssignTag { chip, offset, tag } => {
            &&& offset == row
            &&& chip == c.copy_table.tag
            &&& tag == CopyDataType::Padding
        },
        RegionAction::AssignLt { chip, offset, lhs, rhs } => {
            &&& offset == row
            &&& chip == c.addr_lt_addr_end
            &&& lhs == 0
            &&& rhs == 1
        },
    }
}

/// The steps of a padding row, one by one.
proof fn lemma_padding<V>(
    c: CopyCircuitConfig,
    row: usize,
    enabled: bool,
    action: RegionAction<V>,
)
    ensures
        c.padding_actions::<V>(row, enabled).contains(action) <==> in_padding(
            c,
            row,
            enabled,
            action,
        ),
        c.padding_actions::<V>(row, enabled).len() == if enabled && row % 2 == 0 {
            18int
        } else {
            17
        },
{
    let actions = c.padding_actions::<V>(row, enabled);
    let lead = if enabled && row % 2 == 0 {
        2int
    } else {
        1
    };
    assert(actions[0] is AssignFixed);
    if in_padding(c, row, enabled, action) {
        match action {
            RegionAction::NameColumn { .. } => {},
            RegionAction::AssignAdvice { annotation, .. } => {
                let label = annotation->Padding_0;
                let k = place_of(label);
                assert(actions[lead + k] == action);
            },
            RegionAction::AssignFixed { .. } => {
                assert(actions[0] == action);
            },
            RegionAction::EnableSelector { .. } => {
                assert(actions[1] == action);
            },
            RegionAction::AssignTag { .. } => {
                assert(actions[lead + 14] == action);
            },
            RegionAction::AssignLt { .. } => {
                assert(actions[lead + 15] == action);
            },
        }
    }
    if actions.contains(action) {
        let k = choose|k: int| 0 <= k < actions.len() && actions[k] == action;
        if lead <= k < lead + 14 {
            let cell = c.padding_cells::<V>()[k - lead];
            assert(column_of(c, cell.1) == Some(cell.0));
        }
    }
}

/// A padding row is assigned exactly this: every cell of the row is zero but the end of the source,
/// which is one; the row is enabled or not as told, and a step if it is enabled and even; its tag
/// is that of padding; and zero is compared with one.
pub proof fn padding_rows_are_assigned_exactly<V: Copy>(
    c: CopyCircuitConfig,
    region: &mut Region<V>,
    offset: &mut usize,
    enabled: bool,
    action: RegionAction<V>,
)
    requires
        call_ensures(
            CopyCircuitConfig::assign_padding_row::<V>,
            (&c, region, offset, enabled),
            (),
        ),
    ensures
        *final(offset) == *old(offset) + 1,
        old(region).actions@.is_prefix_of(final(region).actions@),
        final(region).actions@.len() == old(region).actions@.len() + if enabled && *old(offset) % 2
            == 0 {
            18int
        } else {
            17
        },
        final(region).actions@.skip(old(region).actions@.len() as int).contains(action) <==> row_of(
            action,
        ) == Some(*old(offset) as int) && match action {
            RegionAction::NameColumn { .. } => false,
            RegionAction::AssignAdvice { annotation, column, value, .. } => annotation
                matches Annotation::Padding(label) && column_of(c, label) == Some(column) && value
                == if label == Label::SrcAddrEnd {
                CellValue::<V>::One
            } else {
                CellValue::<V>::Zero
            },
            RegionAction::AssignFixed { annotation, column, value, .. } => annotation
                == Annotation::Plain(Label::QEnable) && column == c.q_enable && value == if enabled {
                CellValue::<V>::One
            } else {
                CellValue::<V>::Zero
            },
            RegionAction::EnableSelector { selector, .. } => selector == c.q_step && enabled
                && *old(offset) % 2 == 0,
            RegionAction::AssignTag { chip, tag, .. } => chip == c.copy_table.tag && tag
                == CopyDataType::Padding,
            RegionAction::AssignLt { chip, lhs, rhs, .. } => chip == c.addr_lt_addr_end && lhs == 0
                && rhs == 1,
        },
{
    lemma_padding(c, *old(offset), enabled, action);
    assert(final(region).actions@.skip(old(region).actions@.len() as int)
        =~= c.padding_actions::<V>(*old(offset), enabled));
}

/// The cells of a row of an event, with their labels: those of the copy table, then the others.
pub open spec fn cells_of<V>(row: CopyRow<V>) -> Seq<(V, Label)> {
    row.table_row@ + row.circuit_row@
}

/// The columns of the cells of a row of an event.
pub open spec fn columns_of_cells(c: CopyCircuitConfig) -> Seq<AdviceColumn> {
    seq![
        c.copy_table.is_first,
        c.copy_table.id.lo,
        c.copy_table.id.hi,
        c.copy_table.addr,
        c.copy_table.src_addr_end,
        c.copy_table.bytes_left,
        c.copy_table.rlc_acc,
        c.copy_table.rw_counter,
        c.copy_table.rwc_inc_left,
        c.is_last,
        c.value,
        c.value_acc_rlc,
        c.is_pad,
        c.is_code,
    ]
}

/// Whether a step is one of the `k`-th row of an event.
spec fn in_row<V>(
    c: CopyCircuitConfig,
    event: CopyEvent,
    k: int,
    row: CopyRow<V>,
    at: usize,
    action: RegionAction<V>,
) -> bool {
    match action {
        RegionAction::NameColumn { .. } => false,
        RegionAction::AssignAdvice { annotation, column, offset, value } => {
            &&& offset == at
            &&& exists|j: int|
                0 <= j < 14 && column == columns_of_cells(c)[j] && value == CellValue::Known(
                    cells_of(row)[j].0,
                ) && annotation == Annotation::AtRow((#[trigger] cells_of(row)[j]).1) && (k % 2 == 0
                    || j >= 9 || (cells_of(row)[j].1 != Label::SrcAddrEnd && cells_of(row)[j].1
                    != Label::BytesLeft))
        },
        RegionAction::AssignFixed { annotation, column, offset, value } => {
            &&& offset == at
            &&& annotation == Annotation::Plain(Label::QEnable)
            &&& column == c.q_enable
            &&& value == CellValue::<V>::One
        },
        RegionAction::EnableSelector { selector, offset } => {
            &&& offset == at
            &&& selector == c.q_step
            &&& k % 2 == 0
        },
        RegionAction::AssignTag { chip, offset, tag } => {
            &&& offset == at
            &&& chip == c.copy_table.tag
            &&& tag == row.tag
        },
        RegionAction::AssignLt { chip, offset, lhs, rhs } => {
            &&& offset == at
            &&& k % 2 == 0
            &&& chip == c.addr_lt_addr_end
            &&& lhs == event.src_addr + k / 2
            &&& rhs == event.src_addr_end
        },
    }
}

/// The steps of a row of an event, one by one.
proof fn lemma_row<V>(
    c: CopyCircuitConfig,
    event: CopyEvent,
    k: int,
    row: CopyRow<V>,
    at: usize,
    action: RegionAction<V>,
)
    requires
        0 <= k,
        event.src_addr + k / 2 <= u64::MAX,
    ensures
        c.row_actions(event, k, row, at).contains(action) <==> in_row(c, event, k, row, at, action),
{
    let is_read = k % 2 == 0;
    let actions = c.row_actions(event, k, row, at);
    let table_cells = assigned_cells(c.copy_table.spec_advice_columns(), row.table_row@, at);
    let keep = |action: RegionAction<V>| is_read || !is_read_only(action);
    let kept = table_cells.filter(keep);
    let circuit_cells = assigned_cells(c.circuit_columns(), row.circuit_row@, at);
    let lead = kept.len() + if is_read {
        1int
    } else {
        0
    };
    assert(columns_of_cells(c) =~= c.copy_table.spec_advice_columns() + c.circuit_columns());
    assert forall|j: int| 0 <= j < 9 implies #[trigger] cells_of(row)[j] == row.table_row@[j] by {}
    assert forall|j: int| 9 <= j < 14 implies #[trigger] cells_of(row)[j] == row.circuit_row@[j
        - 9] by {}
    if in_row(c, event, k, row, at, action) {
        match action {
            RegionAction::NameColumn { .. } => {},
            RegionAction::AssignAdvice { annotation, column, offset, value } => {
                let j = choose|j: int|
                    0 <= j < 14 && column == columns_of_cells(c)[j] && value == CellValue::Known(
                        cells_of(row)[j].0,
                    ) && annotation == Annotation::AtRow((#[trigger] cells_of(row)[j]).1) && (k % 2
                        == 0 || j >= 9 || (cells_of(row)[j].1 != Label::SrcAddrEnd && cells_of(
                        row,
                    )[j].1 != Label::BytesLeft));
                if j < 9 {
                    assert(table_cells[j] == action);
                    assert(keep(table_cells[j]));
                    table_cells.lemma_filter_contains(keep, j);
                    let m = choose|m: int| 0 <= m < kept.len() && kept[m] == action;
                    assert(actions[m] == action);
                } else {
                    assert(circuit_cells[j - 9] == action);
                    assert(actions[lead + 1 + (j - 9)] == action);
                }
            },
            RegionAction::AssignFixed { .. } => {
                assert(actions[lead] == action);
            },
            RegionAction::EnableSelector { .. } => {
                assert(actions[kept.len() as int] == action);
            },
            RegionAction::AssignTag { .. } => {
                assert(actions[lead + 6] == action);
            },
            RegionAction::AssignLt { .. } => {
                assert(actions[lead + 7] == action);
            },
        }
    }
    if actions.contains(action) {
        let m = choose|m: int| 0 <= m < actions.len() && actions[m] == action;
        if m < kept.len() {
            assert(kept[m] == action);
            table_cells.lemma_filter_pred(keep, m);
            assert(kept.contains(action));
            table_cells.lemma_filter_contains_rev(keep, action);
            let j = choose|j: int| 0 <= j < table_cells.len() && table_cells[j] == action;
            assert(cells_of(row)[j] == row.table_row@[j]);
        } else if lead + 1 <= m < lead + 6 {
            let j = m - lead - 1;
            assert(circuit_cells[j] == action);
            assert(cells_of(row)[j + 9] == row.circuit_row@[j]);
        }
    }
}

/// The steps of an event are those of its rows.
proof fn lemma_event<V>(
    c: CopyCircuitConfig,
    event: CopyEvent,
    rows: Seq<CopyRow<V>>,
    start: int,
    n: nat,
    k: int,
    action: RegionAction<V>,
)
    requires
        n <= rows.len(),
        0 <= k < n,
        0 <= start,
        start + n <= usize::MAX,
        event.src_addr + (n - 1) / 2 <= u64::MAX,
    ensures
        c.event_actions(event, rows, start, n).contains(action) && row_of(action) == Some(start + k)
            <==> in_row(c, event, k, rows[k], (start + k) as usize, action),
    decreases n,
{
    let before = c.event_actions(event, rows, start, (n - 1) as nat);
    let here = c.row_actions(event, n - 1, rows[n - 1], (start + n - 1) as usize);
    lemma_either(before, here, action);
    lemma_row(c, event, n - 1, rows[n - 1], (start + n - 1) as usize, action);
    if k < n - 1 {
        lemma_event(c, event, rows, start, (n - 1) as nat, k, action);
    } else if before.contains(action) {
        lemma_event_within(c, event, rows, start, (n - 1) as nat, action);
    }
}

/// An event's steps assign in its own rows only.
proof fn lemma_event_within<V>(
    c: CopyCircuitConfig,
    event: CopyEvent,
    rows: Seq<CopyRow<V>>,
    start: int,
    n: nat,
    action: RegionAction<V>,
)
    requires
        n <= rows.len(),
        0 <= start,
        start + n <= usize::MAX,
        n > 0 ==> event.src_addr + (n - 1) / 2 <= u64::MAX,
        c.event_actions(event, rows, start, n).contains(action),
    ensures
        row_of(action) is Some,
        start <= row_of(action)->0 < start + n,
    decreases n,
{
    if n > 0 {
        let before = c.event_actions(event, rows, start, (n - 1) as nat);
        let here = c.row_actions(event, n - 1, rows[n - 1], (start + n - 1) as usize);
        lemma_either(before, here, action);
        if before.contains(action) {
            lemma_event_within(c, event, rows, start, (n - 1) as nat, action);
        } else {
            lemma_row(c, event, n - 1, rows[n - 1], (start + n - 1) as usize, action);
        }
    }
}

/// A row of an event is assigned exactly this: each of its cells, with its value and label, in the
/// column at its place, but in a write row not the end of the source nor the bytes left; that it
/// is enabled; that it is a step, if it is a read row; its tag; and, in a read row, the comparison
/// of the address that the row reads from with the end of the source.
pub proof fn event_rows_are_assigned_exactly<V: Copy>(
    c: CopyCircuitConfig,
    region: &mut Region<V>,
    offset: &mut usize,
    event: CopyEvent,
    rows: Vec<CopyRow<V>>,
    k: int,
    action: RegionAction<V>,
)
    requires
        call_ensures(
            CopyCircuitConfig::assign_copy_event::<V>,
            (&c, region, offset, &event, &rows),
            (),
        ),
        *old(offset) + rows@.len() <= usize::MAX,
        event.src_addr + (rows@.len() - 1) / 2 <= u64::MAX,
        0 <= k < rows@.len(),
    ensures
        *final(offset) == *old(offset) + rows@.len(),
        old(region).actions@.is_prefix_of(final(region).actions@),
        ({
            let added = final(region).actions@.skip(old(region).actions@.len() as int);
            &&& added.contains(action) ==> (row_of(action) matches Some(at) && *old(offset) <= at
                < *old(offset) + rows@.len())
            &&& added.contains(action) && row_of(action) == Some(*old(offset) + k) <==> row_of(
                action,
            ) == Some(*old(offset) + k) && match action {
                RegionAction::NameColumn { .. } => false,
                RegionAction::AssignAdvice { annotation, column, value, .. } => exists|j: int|
                    0 <= j < 14 && column == columns_of_cells(c)[j] && value == CellValue::Known(
                        cells_of(rows@[k])[j].0,
                    ) && annotation == Annotation::AtRow((#[trigger] cells_of(rows@[k])[j]).1) && (k
                        % 2 == 0 || j >= 9 || (cells_of(rows@[k])[j].1 != Label::SrcAddrEnd
                        && cells_of(rows@[k])[j].1 != Label::BytesLeft)),
                RegionAction::AssignFixed { annotation, column, value, .. } => annotation
                    == Annotation::Plain(Label::QEnable) && column == c.q_enable && value
                    == CellValue::<V>::One,
                RegionAction::EnableSelector { selector, .. } => selector == c.q_step && k % 2 == 0,
                RegionAction::AssignTag { chip, tag, .. } => chip == c.copy_table.tag && tag
                    == rows@[k].tag,
                RegionAction::AssignLt { chip, lhs, rhs, .. } => chip == c.addr_lt_addr_end && k % 2
                    == 0 && lhs == event.src_addr + k / 2 && rhs == event.src_addr_end,
            }
        }),
{
    let added = final(region).actions@.skip(old(region).actions@.len() as int);
    let n = rows@.len();
    let start = *old(offset) as int;
    assert(added =~= c.event_actions(event, rows@, start, n));
    lemma_event(c, event, rows@, start, n, k, action);
    if added.contains(action) {
        lemma_event_within(c, event, rows@, start, n, action);
    }
}

/// An event without rows is assigned nothing.
pub proof fn events_without_rows_assign_nothing<V: Copy>(
    c: CopyCircuitConfig,
    region: &mut Region<V>,
    offset: &mut usize,
    event: CopyEvent,
    rows: Vec<CopyRow<V>>,
)
    requires
        call_ensures(
            CopyCircuitConfig::assign_copy_event::<V>,
            (&c, region, offset, &event, &rows),
            (),
        ),
        rows@.len() == 0,
    ensures
        *final(offset) == *old(offset),
        final(region).actions@ == old(region).actions@,
{
    assert(final(region).actions@ =~= old(region).actions@);
}

/// Events assign in their own rows only.
proof fn lemma_events_within<V>(
    c: CopyCircuitConfig,
    copy_events: Seq<CopyEvent>,
    rows: Seq<Vec<CopyRow<V>>>,
    n: nat,
    action: RegionAction<V>,
)
    requires
        rows_match(copy_events, rows),
        sources_addressable(copy_events),
        n <= copy_events.len(),
        rows_needed(copy_events, n) <= usize::MAX,
        c.events_actions(copy_events, rows, n).contains(action),
    ensures
        row_of(action) is Some,
        0 <= row_of(action)->0 < rows_needed(copy_events, n),
    decreases n,
{
    if n > 0 {
        let e = n - 1;
        let start = rows_needed(copy_events, e as nat) as int;
        let before = c.events_actions(copy_events, rows, e as nat);
        let here = c.event_actions(copy_events[e], rows[e]@, start, rows[e]@.len());
        lemma_either(before, here, action);
        if before.contains(action) {
            lemma_events_within(c, copy_events, rows, e as nat, action);
        } else {
            lemma_event_within(c, copy_events[e], rows[e]@, start, rows[e]@.len(), action);
        }
    }
}

/// What events assign in the rows of one of them are that event's steps.
proof fn lemma_events<V>(
    c: CopyCircuitConfig,
    copy_events: Seq<CopyEvent>,
    rows: Seq<Vec<CopyRow<V>>>,
    n: nat,
    e: int,
    action: RegionAction<V>,
)
    requires
        rows_match(copy_events, rows),
        sources_addressable(copy_events),
        n <= copy_events.len(),
        rows_needed(copy_events, n) <= usize::MAX,
        0 <= e < n,
    ensures
        c.events_actions(copy_events, rows, n).contains(action) && (row_of(action) matches Some(at)
            && rows_needed(copy_events, e as nat) <= at < rows_needed(copy_events, (e + 1) as nat))
            <==> c.event_actions(
            copy_events[e],
            rows[e]@,
            rows_needed(copy_events, e as nat) as int,
            rows[e]@.len(),
        ).contains(action),
    decreases n,
{
    let last = n - 1;
    let start = rows_needed(copy_events, last as nat) as int;
    let before = c.events_actions(copy_events, rows, last as nat);
    let here = c.event_actions(copy_events[last], rows[last]@, start, rows[last]@.len());
    lemma_either(before, here, action);
    if before.contains(action) {
        lemma_events_within(c, copy_events, rows, last as nat, action);
    }
    if here.contains(action) {
        lemma_event_within(c, copy_events[last], rows[last]@, start, rows[last]@.len(), action);
    }
    if e < last {
        lemma_events(c, copy_events, rows, last as nat, e, action);
        lemma_rows_needed_grow(copy_events, (e + 1) as nat, last as nat);
    }
}

/// What padding rows assign in one of them are that row's steps.
proof fn lemma_filler<V>(
    c: CopyCircuitConfig,
    start: int,
    enabled: bool,
    n: nat,
    action: RegionAction<V>,
)
    requires
        0 <= start,
        start + n <= usize::MAX,
    ensures
        c.filler_actions::<V>(start, enabled, n).contains(action) <==> (row_of(action) matches Some(
            at,
        ) && start <= at < start + n && in_padding(c, at as usize, enabled, action)),
    decreases n,
{
    if n > 0 {
        let before = c.filler_actions::<V>(start, enabled, (n - 1) as nat);
        let at = (start + n - 1) as usize;
        lemma_either(before, c.padding_actions::<V>(at, enabled), action);
        lemma_filler(c, start, enabled, (n - 1) as nat, action);
        lemma_padding(c, at, enabled, action);
    }
}

/// The steps of a region, by the rows that they assign in.
proof fn lemma_layout<V>(
    c: CopyCircuitConfig,
    copy_events: Seq<CopyEvent>,
    rows: Seq<Vec<CopyRow<V>>>,
    max_copy_rows: int,
    action: RegionAction<V>,
)
    requires
        region_fits(copy_events, rows, max_copy_rows),
    ensures
        ({
            let needed = rows_needed(copy_events, copy_events.len());
            c.layout_actions(copy_events, rows, max_copy_rows).contains(action) <==> match row_of(
                action,
            ) {
                None => {
                    ||| action == (RegionAction::<V>::NameColumn {
                        column: c.is_last,
                        name: "is_last",
                    })
                    ||| action == (RegionAction::<V>::NameColumn { column: c.value, name: "value" })
                    ||| action == (RegionAction::<V>::NameColumn {
                        column: c.is_code,
                        name: "is_code",
                    })
                    ||| action == (RegionAction::<V>::NameColumn {
                        column: c.is_pad,
                        name: "is_pad",
                    })
                },
                Some(at) => if at < needed {
                    c.events_actions(copy_events, rows, copy_events.len()).contains(action)
                } else {
                    at < max_copy_rows && in_padding(
                        c,
                        at as usize,
                        at < max_copy_rows - DISABLED_ROWS,
                        action,
                    )
                },
            }
        }),
{
    let needed = rows_needed(copy_events, copy_events.len());
    let enabled_rows = max_copy_rows - DISABLED_ROWS;
    let names = seq![
        RegionAction::<V>::NameColumn { column: c.is_last, name: "is_last" },
        RegionAction::NameColumn { column: c.value, name: "value" },
        RegionAction::NameColumn { column: c.is_code, name: "is_code" },
        RegionAction::NameColumn { column: c.is_pad, name: "is_pad" },
    ];
    let events = c.events_actions(copy_events, rows, copy_events.len());
    let filler = c.filler_actions::<V>(needed as int, true, (enabled_rows - needed) as nat);
    let disabled = c.filler_actions::<V>(enabled_rows, false, DISABLED_ROWS as nat);
    lemma_either(names, events, action);
    lemma_either(names + events, filler, action);
    lemma_either(names + events + filler, disabled, action);
    lemma_filler(c, needed as int, true, (enabled_rows - needed) as nat, action);
    lemma_filler(c, enabled_rows, false, DISABLED_ROWS as nat, action);
    if events.contains(action) {
        lemma_events_within(c, copy_events, rows, copy_events.len(), action);
    }
    assert(names[0] == (RegionAction::<V>::NameColumn { column: c.is_last, name: "is_last" }));
    assert(names[1] == (RegionAction::<V>::NameColumn { column: c.value, name: "value" }));
    assert(names[2] == (RegionAction::<V>::NameColumn { column: c.is_code, name: "is_code" }));
    assert(names[3] == (RegionAction::<V>::NameColumn { column: c.is_pad, name: "is_pad" }));
    assert(names.len() == 4);
}

/// Assigning copy events loads the comparison and then assigns one region, whose rows are as many
/// as were asked for, and of whose columns four are named.
pub proof fn one_region_is_assigned<V: Copy>(
    c: CopyCircuitConfig,
    layouter: &mut Layouter<V>,
    copy_events: Vec<CopyEvent>,
    rows: Vec<Vec<CopyRow<V>>>,
    max_copy_rows: usize,
    action: RegionAction<V>,
)
    requires
        call_ensures(
            CopyCircuitConfig::assign_copy_events::<V>,
            (&c, layouter, &copy_events, &rows, max_copy_rows),
            (),
        ),
        region_fits(copy_events@, rows@, max_copy_rows as int),
    ensures
        final(layouter).actions@.len() == old(layouter).actions@.len() + 2,
        old(layouter).actions@.is_prefix_of(final(layouter).actions@),
        final(layouter).actions@[old(layouter).actions@.len() as int] == (
        LayouterAction::<V>::LoadLt { chip: c.addr_lt_addr_end }),
        final(layouter).actions@.last() matches LayouterAction::AssignRegion { name, region }
            && name@ == "assign copy table"@ && (region.actions@.contains(action) ==> match row_of(
            action,
        ) {
            Some(at) => 0 <= at < max_copy_rows,
            None => true,
        }) && (region.actions@.contains(action) && row_of(action) is None <==> {
            ||| action == (RegionAction::<V>::NameColumn { column: c.is_last, name: "is_last" })
            ||| action == (RegionAction::<V>::NameColumn { column: c.value, name: "value" })
            ||| action == (RegionAction::<V>::NameColumn { column: c.is_code, name: "is_code" })
            ||| action == (RegionAction::<V>::NameColumn { column: c.is_pad, name: "is_pad" })
        }),
{
    lemma_layout(c, copy_events@, rows@, max_copy_rows as int, action);
}

/// A region is assigned, in the rows of each event, exactly what the event would be assigned
/// there by itself: the events lie one after the other, from the region's first row on.
pub proof fn regions_hold_their_events<V: Copy>(
    c: CopyCircuitConfig,
    layouter: &mut Layouter<V>,
    copy_events: Vec<CopyEvent>,
    rows: Vec<Vec<CopyRow<V>>>,
    max_copy_rows: usize,
    e: int,
    region: &mut Region<V>,
    offset: &mut usize,
    action: RegionAction<V>,
)
    requires
        call_ensures(
            CopyCircuitConfig::assign_copy_events::<V>,
            (&c, layouter, &copy_events, &rows, max_copy_rows),
            (),
        ),
        region_fits(copy_events@, rows@, max_copy_rows as int),
        0 <= e < copy_events@.len(),
        *old(offset) == rows_needed(copy_events@, e as nat),
        call_ensures(
            CopyCircuitConfig::assign_copy_event::<V>,
            (&c, region, offset, &copy_events@[e], &rows@[e]),
            (),
        ),
    ensures
        *final(offset) == rows_needed(copy_events@, (e + 1) as nat),
        final(layouter).actions@.last() matches LayouterAction::AssignRegion { region: whole, .. }
            && (whole.actions@.contains(action) && (row_of(action) matches Some(at) && *old(offset)
            <= at < *final(offset)) <==> final(region).actions@.skip(
            old(region).actions@.len() as int,
        ).contains(action)),
{
    let n = copy_events@.len();
    lemma_rows_needed_grow(copy_events@, (e + 1) as nat, n);
    assert(rows@[e]@.len() == 2 * copy_events@[e].bytes@.len());
    lemma_layout(c, copy_events@, rows@, max_copy_rows as int, action);
    lemma_events(c, copy_events@, rows@, n, e, action);
    assert(final(region).actions@.skip(old(region).actions@.len() as int) =~= c.event_actions(
        copy_events@[e],
        rows@[e]@,
        *old(offset) as int,
        rows@[e]@.len(),
    ));
}

/// A region is assigned, in each row after those of its events, exactly what a padding row would
/// be assigned there by itself: an enabled one, but for the last two, which are disabled.
pub proof fn regions_end_in_padding<V: Copy>(
    c: CopyCircuitConfig,
    layouter: &mut Layouter<V>,
    copy_events: Vec<CopyEvent>,
    rows: Vec<Vec<CopyRow<V>>>,
    max_copy_rows: usize,
    region: &mut Region<V>,
    offset: &mut usize,
    enabled: bool,
    action: RegionAction<V>,
)
    requires
        call_ensures(
            CopyCircuitConfig::assign_copy_events::<V>,
            (&c, layouter, &copy_events, &rows, max_copy_rows),
            (),
        ),
        region_fits(copy_events@, rows@, max_copy_rows as int),
        rows_needed(copy_events@, copy_events@.len()) <= *old(offset) < max_copy_rows,
        enabled <==> *old(offset) < max_copy_rows - 2,
        call_ensures(
            CopyCircuitConfig::assign_padding_row::<V>,
            (&c, region, offset, enabled),
            (),
        ),
    ensures
        final(layouter).actions@.last() matches LayouterAction::AssignRegion { region: whole, .. }
            && (whole.actions@.contains(action) && row_of(action) == Some(*old(offset) as int)
            <==> final(region).actions@.skip(old(region).actions@.len() as int).contains(action)),
{
    lemma_layout(c, copy_events@, rows@, max_copy_rows as int, action);
    lemma_padding(c, *old(offset), enabled, action);
    assert(final(region).actions@.skip(old(region).actions@.len() as int)
        =~= c.padding_actions::<V>(*old(offset), enabled));
}

/// Making a circuit's assignments is assigning its copy events to a region of its rows.
pub proof fn circuits_assign_their_events<Tx, Rws, Codes, V: Copy>(
    circuit: CopyCircuit<Tx, Rws, Codes>,
    c: CopyCircuitConfig,
    rows: Vec<Vec<CopyRow<V>>>,
    layouter: &mut Layouter<V>,
    other: &mut Layouter<V>,
)
    requires
        region_fits(circuit.copy_events@, rows@, circuit.max_copy_rows as int),
        call_ensures(
            CopyCircuit::<Tx, Rws, Codes>::synthesize_sub::<V>,
            (&circuit, &c, &rows, layouter),
            (),
        ),
        call_ensures(
            CopyCircuitConfig::assign_copy_events::<V>,
            (&c, other, &circuit.copy_events, &rows, circuit.max_copy_rows),
            (),
        ),
    ensures
        old(layouter).actions@.is_prefix_of(final(layouter).actions@),
        ({
            let made = final(layouter).actions@.skip(old(layouter).actions@.len() as int);
            let assigned = final(other).actions@.skip(old(other).actions@.len() as int);
            &&& made.len() == 2
            &&& assigned.len() == 2
            &&& made[0] == assigned[0]
            &&& made[1] matches LayouterAction::AssignRegion { name, region } && assigned[1] matches
                LayouterAction::AssignRegion { name: other_name, region: other_region } && name@
                == other_name@ && region.actions@ == other_region.actions@
        }),
{
}

/// Where the rows of events describe copies, every read row is assigned the comparison of its own
/// address with its own end of the source, and no other comparison is assigned in any row: the
/// operands are the numbers that the row's two cells hold.
pub proof fn comparisons_are_of_their_rows_cells<V>(
    c: CopyCircuitConfig,
    t: Trace,
    reading: Reading<V>,
    base: int,
    copy_events: Seq<CopyEvent>,
    rows: Seq<Vec<CopyRow<V>>>,
    max_copy_rows: int,
    i: int,
    action: RegionAction<V>,
)
    requires
        reading.p == t.modulus,
        region_fits(copy_events, rows, max_copy_rows),
        realizes(c, t, reading.val, c.layout_actions(copy_events, rows, max_copy_rows)),
        forall|e: int|
            0 <= e < copy_events.len() && copy_events[e].bytes@.len() > 0 ==> #[trigger]
                describes_copy(reading, base, copy_events[e], rows[e]@),
        0 <= i < max_copy_rows,
        action is AssignLt,
        row_of(action) == Some(i),
    ensures
        t.selected(c.q_step, i) ==> t.advice_at(c.copy_table.addr, i) <= u64::MAX && t.advice_at(
            c.copy_table.src_addr_end,
            i,
        ) <= u64::MAX && c.layout_actions(copy_events, rows, max_copy_rows).contains(
            RegionAction::<V>::AssignLt {
                chip: c.addr_lt_addr_end,
                offset: i as usize,
                lhs: t.advice_at(c.copy_table.addr, i) as u64,
                rhs: t.advice_at(c.copy_table.src_addr_end, i) as u64,
            },
        ),
        c.layout_actions(copy_events, rows, max_copy_rows).contains(action) ==> (action matches
            RegionAction::AssignLt { chip, lhs, rhs, .. } && chip == c.addr_lt_addr_end && lhs
            == t.advice_at(c.copy_table.addr, i) && rhs == t.advice_at(
            c.copy_table.src_addr_end,
            i,
        )),
{
    let n = copy_events.len();
    let needed = rows_needed(copy_events, n);
    let right = RegionAction::<V>::AssignLt {
        chip: c.addr_lt_addr_end,
        offset: i as usize,
        lhs: t.advice_at(c.copy_table.addr, i) as u64,
        rhs: t.advice_at(c.copy_table.src_addr_end, i) as u64,
    };
    lemma_layout(c, copy_events, rows, max_copy_rows, action);
    lemma_layout(c, copy_events, rows, max_copy_rows, right);
    assigned_rows_come_in_pairs(c, t, reading.val, copy_events, rows, max_copy_rows);
    assert(t.fixed_at(c.q_enable, i) == 0 || t.fixed_at(c.q_enable, i) == 1);
    if i < needed {
        let e = lemma_locate(copy_events, n, i) as int;
        let start = rows_needed(copy_events, e as nat) as int;
        let m = i - start;
        let event = copy_events[e];
        let row = rows[e]@[m];
        lemma_rows_needed_grow(copy_events, (e + 1) as nat, n);
        lemma_rows_needed_even(copy_events, e as nat);
        assert(rows[e]@.len() == 2 * event.bytes@.len());
        assert(describes_copy(reading, base, event, rows[e]@));
        let (src, dst) = choose|src: CopyDataType, dst: CopyDataType| #[trigger]
            reading.describes(base, event, rows[e]@, src, dst);
        assert(reading.describes_row(base, event, rows[e]@, src, dst, m));
        assigned_events_hold_their_rows(
            c,
            t,
            reading.val,
            copy_events,
            rows,
            max_copy_rows,
            e,
            m,
        );
        let columns = c.copy_table.spec_advice_columns();
        assert(columns[3] == c.copy_table.addr);
        assert(columns[4] == c.copy_table.src_addr_end);
        assert(row.table_row@[3].1 != Label::SrcAddrEnd);
        lemma_events(c, copy_events, rows, n, e, action);
        lemma_event(c, event, rows[e]@, start, rows[e]@.len(), m, action);
        lemma_events(c, copy_events, rows, n, e, right);
        lemma_event(c, event, rows[e]@, start, rows[e]@.len(), m, right);
    } else {
        assigned_rest_is_padding(c, t, reading.val, copy_events, rows, max_copy_rows, i);
    }
}

} // verus!
