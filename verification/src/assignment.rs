//! Filling in the rows of the copy circuit.
use crate::binary_number::CopyDataType;
use crate::config::CopyCircuitConfig;
use crate::expression::AdviceColumn;
use crate::pairing::zip_eq;
use crate::region::{Annotation, CellValue, Label, Layouter, LayouterAction, Region, RegionAction};
use vstd::prelude::*;

verus! {

/// Rows to enable but not use, that can be queried safely by the last event.
pub const UNUSED_ROWS: usize = 2;

/// Rows to disable, so they do not query into Halo2 reserved rows.
pub const DISABLED_ROWS: usize = 2;

/// A copy of bytes from one place to another.
#[derive(Debug, PartialEq, Eq)]
pub struct CopyEvent {
    /// The address of the first byte in the source.
    pub src_addr: u64,
    /// The end of the source: bytes from here on read as zero.
    pub src_addr_end: u64,
    /// The bytes, each with whether it is an opcode.
    pub bytes: Vec<CopyByte>,
}

impl Clone for CopyEvent {
    fn clone(&self) -> (copy: Self)
        ensures
            copy@ == self@,
    {
        let bytes = self.bytes.clone();
        assert(bytes@ =~= self.bytes@);
        CopyEvent { src_addr: self.src_addr, src_addr_end: self.src_addr_end, bytes }
    }
}

/// What a copy event says.
pub struct CopyEventView {
    pub src_addr: u64,
    pub src_addr_end: u64,
    pub bytes: Seq<CopyByte>,
}

impl View for CopyEvent {
    type V = CopyEventView;

    open spec fn view(&self) -> CopyEventView {
        CopyEventView {
            src_addr: self.src_addr,
            src_addr_end: self.src_addr_end,
            bytes: self.bytes@,
        }
    }
}

/// What a list of copy events says.
pub open spec fn event_views(copy_events: Seq<CopyEvent>) -> Seq<CopyEventView> {
    copy_events.map_values(|e: CopyEvent| e@)
}

/// A copied byte.
#[derive(Clone, Copy, Debug, PartialEq, Eq, Structural)]
pub struct CopyByte {
    pub value: u8,
    /// Whether the byte is an opcode, where it is code at all.
    pub is_code: bool,
}

/// The values of one row of a copy event.
#[derive(Clone, Copy, Debug, PartialEq, Eq)]
pub struct CopyRow<V> {
    pub tag: CopyDataType,
    /// The cells of the copy table, in the order of `CopyTable::advice_columns`.
    pub table_row: [(V, Label); 9],
    /// The other cells: is_last, value, value_acc_rlc, is_pad and is_code.
    pub circuit_row: [(V, Label); 5],
}

/// The assignment of each cell to the column at its place.
pub open spec fn assigned_cells<V>(
    columns: Seq<AdviceColumn>,
    cells: Seq<(V, Label)>,
    offset: usize,
) -> Seq<RegionAction<V>> {
    Seq::new(
        cells.len(),
        |k: int|
            RegionAction::AssignAdvice {
                annotation: Annotation::AtRow(cells[k].1),
                column: columns[k],
                offset,
                value: CellValue::Known(cells[k].0),
            },
    )
}

/// Whether the cell is one that only a read row assigns.
pub open spec fn is_read_only<V>(action: RegionAction<V>) -> bool {
    action matches RegionAction::AssignAdvice { annotation: Annotation::AtRow(label), .. } && (label
        == Label::SrcAddrEnd || label == Label::BytesLeft)
}

impl CopyCircuitConfig {
    /// The columns of a row that are not part of the copy table.
    pub open spec fn circuit_columns(self) -> Seq<AdviceColumn> {
        seq![self.is_last, self.value, self.value_acc_rlc, self.is_pad, self.is_code]
    }

    /// What the `step_idx`-th row of an event assigns.
    pub open spec fn row_actions<V>(
        self,
        event: CopyEvent,
        step_idx: int,
        row: CopyRow<V>,
        offset: usize,
    ) -> Seq<RegionAction<V>> {
        let is_read = step_idx % 2 == 0;
        let table_cells = assigned_cells(
            self.copy_table.spec_advice_columns(),
            row.table_row@,
            offset,
        );
        table_cells.filter(|action: RegionAction<V>| is_read || !is_read_only(action)) + (
        if is_read {
            seq![RegionAction::EnableSelector { selector: self.q_step, offset }]
        } else {
            seq![]
        }) + seq![
            RegionAction::AssignFixed {
                annotation: Annotation::Plain(Label::QEnable),
                column: self.q_enable,
                offset,
                value: CellValue::One,
            },
        ] + assigned_cells(self.circuit_columns(), row.circuit_row@, offset) + seq![
            RegionAction::AssignTag { chip: self.copy_table.tag, offset, tag: row.tag },
        ] + (if is_read {
            seq![
                RegionAction::AssignLt {
                    chip: self.addr_lt_addr_end,
                    offset,
                    lhs: (event.src_addr + step_idx / 2) as u64,
                    rhs: event.src_addr_end,
                },
            ]
        } else {
            seq![]
        })
    }

    /// What the first `n` rows of an event assign, from the row `start` on.
    pub open spec fn event_actions<V>(
        self,
        event: CopyEvent,
        rows: Seq<CopyRow<V>>,
        start: int,
        n: nat,
    ) -> Seq<RegionAction<V>>
        decreases n,
    {
        if n == 0 {
            seq![]
        } else {
            self.event_actions(event, rows, start, (n - 1) as nat) + self.row_actions(
                event,
                n - 1,
                rows[n - 1],
                (start + n - 1) as usize,
            )
        }
    }
}

/// The items of an array as a list.
fn to_list<T: Copy, const N: usize>(items: &[T; N]) -> (list: Vec<T>)
    ensures
        list@ == items@,
{
    let mut list: Vec<T> = Vec::new();
    let mut k: usize = 0;
    while k < N
        invariant
            k <= N,
            list@ == items@.take(k as int),
        decreases N - k,
    {
        list.push(items[k]);
        k += 1;
    }
    list
}

impl CopyCircuitConfig {
    /// Assign an individual copy event to the Copy Circuit.
    ///
    /// `rows` holds the values of the event's rows: a read row and a write row for each byte.
    pub fn assign_copy_event<V: Copy>(
        &self,
        region: &mut Region<V>,
        offset: &mut usize,
        copy_event: &CopyEvent,
        rows: &Vec<CopyRow<V>>,
    )
        requires
            *old(offset) + rows@.len() <= usize::MAX,
            rows@.len() > 0 ==> copy_event.src_addr + (rows@.len() - 1) / 2 <= u64::MAX,
        ensures
            *final(offset) == *old(offset) + rows@.len(),
            final(region).actions@ == old(region).actions@ + self.event_actions(
                *copy_event,
                rows@,
                *old(offset) as int,
                rows@.len(),
            ),
    {
        let ghost start = *offset as int;
        let mut step_idx: usize = 0;
        while step_idx < rows.len()
            invariant
                step_idx <= rows@.len(),
                *offset == start + step_idx,
                start + rows@.len() <= usize::MAX,
                start == *old(offset),
                rows@.len() > 0 ==> copy_event.src_addr + (rows@.len() - 1) / 2 <= u64::MAX,
                region.actions@ == old(region).actions@ + self.event_actions(
                    *copy_event,
                    rows@,
                    start,
                    step_idx as nat,
                ),
            decreases rows@.len() - step_idx,
        {
            let row = &rows[step_idx];
            let is_read = step_idx % 2 == 0;
            let ghost before = region.actions@;

            // Copy table assignments
            let cells = zip_eq(self.copy_table.advice_columns(), to_list(&row.table_row));
            let ghost table_cells = assigned_cells(
                self.copy_table.spec_advice_columns(),
                row.table_row@,
                *offset,
            );
            let ghost keep = |action: RegionAction<V>| is_read || !is_read_only(action);
            let mut k: usize = 0;
            assert(table_cells.take(0).filter(keep) =~= seq![]) by {
                reveal(Seq::filter);
            }
            while k < cells.len()
                invariant
                    k <= cells@.len(),
                    cells@.len() == 9,
                    forall|j: int|
                        0 <= j < 9 ==> #[trigger] cells@[j] == (
                            self.copy_table.spec_advice_columns()[j],
                            row.table_row@[j],
                        ),
                    table_cells == assigned_cells(
                        self.copy_table.spec_advice_columns(),
                        row.table_row@,
                        *offset,
                    ),
                    keep == (|action: RegionAction<V>| is_read || !is_read_only(action)),
                    region.actions@ == before + table_cells.take(k as int).filter(keep),
                decreases cells@.len() - k,
            {
                let (column, (value, label)) = cells[k];
                proof {
                    assert(cells@[k as int] == (
                        self.copy_table.spec_advice_columns()[k as int],
                        row.table_row@[k as int],
                    ));
                    let next = table_cells.take(k + 1);
                    assert(next.drop_last() =~= table_cells.take(k as int));
                    assert(next.last() == table_cells[k as int]);
                    reveal(Seq::filter);
                }
                // Leave sr_addr_end and bytes_left unassigned when !is_read
                if !is_read && (label == Label::SrcAddrEnd || label == Label::BytesLeft) {
                } else {
                    region.assign_advice(
                        Annotation::AtRow(label),
                        column,
                        *offset,
                        CellValue::Known(value),
                    );
                }
                k += 1;
            }
            assert(table_cells.take(9) =~= table_cells);

            // q_step
            if is_read {
                region.enable_selector(self.q_step, *offset);
            }
            // q_enable
            region.assign_fixed(
                Annotation::Plain(Label::QEnable),
                self.q_enable,
                *offset,
                CellValue::One,
            );
            let ghost middle = region.actions@;

            // is_last, value, is_pad, is_code
            let cells = zip_eq(
                vec![self.is_last, self.value, self.value_acc_rlc, self.is_pad, self.is_code],
                to_list(&row.circuit_row),
            );
            let ghost circuit_cells = assigned_cells(
                self.circuit_columns(),
                row.circuit_row@,
                *offset,
            );
            let mut k: usize = 0;
            while k < cells.len()
                invariant
                    k <= cells@.len(),
                    cells@.len() == 5,
                    forall|j: int|
                        0 <= j < 5 ==> #[trigger] cells@[j] == (
                            self.circuit_columns()[j],
                            row.circuit_row@[j],
                        ),
                    circuit_cells == assigned_cells(
                        self.circuit_columns(),
                        row.circuit_row@,
                        *offset,
                    ),
                    region.actions@ == middle + circuit_cells.take(k as int),
                decreases cells@.len() - k,
            {
                let (column, (value, label)) = cells[k];
                assert(cells@[k as int] == (
                    self.circuit_columns()[k as int],
                    row.circuit_row@[k as int],
                ));
                region.assign_advice(
                    Annotation::AtRow(label),
                    column,
                    *offset,
                    CellValue::Known(value),
                );
                k += 1;
            }
            assert(circuit_cells.take(5) =~= circuit_cells);

            // tag
            region.assign_tag(self.copy_table.tag, *offset, row.tag);

            // lt chip
            if is_read {
                region.assign_lt(
                    self.addr_lt_addr_end,
                    *offset,
                    copy_event.src_addr + step_idx as u64 / 2u64,
                    copy_event.src_addr_end,
                );
            }
            assert(region.actions@ =~= before + self.row_actions(
                *copy_event,
                step_idx as int,
                *row,
                *offset,
            ));

            *offset += 1;
            step_idx += 1;
        }
    }

    /// The cells of a padding row: all zero, but for the end of a source that lies beyond its
    /// address.
    pub open spec fn padding_cells<V>(self) -> Seq<(AdviceColumn, Label, CellValue<V>)> {
        seq![
            (self.copy_table.is_first, Label::IsFirst, CellValue::Zero),
            (self.is_last, Label::IsLast, CellValue::Zero),
            (self.copy_table.id.lo, Label::IdLo, CellValue::Zero),
            (self.copy_table.id.hi, Label::IdHi, CellValue::Zero),
            (self.copy_table.addr, Label::Addr, CellValue::Zero),
            (self.copy_table.src_addr_end, Label::SrcAddrEnd, CellValue::One),
            (self.copy_table.bytes_left, Label::BytesLeft, CellValue::Zero),
            (self.value, Label::Value, CellValue::Zero),
            (self.value_acc_rlc, Label::ValueAccRlc, CellValue::Zero),
            (self.copy_table.rlc_acc, Label::RlcAcc, CellValue::Zero),
            (self.is_code, Label::IsCode, CellValue::Zero),
            (self.is_pad, Label::IsPad, CellValue::Zero),
            (self.copy_table.rw_counter, Label::RwCounter, CellValue::Zero),
            (self.copy_table.rwc_inc_left, Label::RwcIncLeft, CellValue::Zero),
        ]
    }

    /// What a padding row assigns.
    pub open spec fn padding_actions<V>(self, offset: usize, enabled: bool) -> Seq<
        RegionAction<V>,
    > {
        seq![
            RegionAction::AssignFixed {
                annotation: Annotation::Plain(Label::QEnable),
                column: self.q_enable,
                offset,
                value: if enabled {
                    CellValue::One
                } else {
                    CellValue::Zero
                },
            },
        ] + (if enabled && offset % 2 == 0 {
            seq![RegionAction::EnableSelector { selector: self.q_step, offset }]
        } else {
            seq![]
        }) + self.padding_cells().map_values(
            |cell: (AdviceColumn, Label, CellValue<V>)|
                RegionAction::AssignAdvice {
                    annotation: Annotation::Padding(cell.1),
                    column: cell.0,
                    offset,
                    value: cell.2,
                },
        ) + seq![
            RegionAction::AssignTag {
                chip: self.copy_table.tag,
                offset,
                tag: CopyDataType::Padding,
            },
            RegionAction::AssignLt { chip: self.addr_lt_addr_end, offset, lhs: 0, rhs: 1 },
        ]
    }

    /// What `n` padding rows assign, from the row `start` on.
    pub open spec fn filler_actions<V>(self, start: int, enabled: bool, n: nat) -> Seq<
        RegionAction<V>,
    >
        decreases n,
    {
        if n == 0 {
            seq![]
        } else {
            self.filler_actions(start, enabled, (n - 1) as nat) + self.padding_actions(
                (start + n - 1) as usize,
                enabled,
            )
        }
    }

    /// Assign a row that belongs to no copy event.
    pub fn assign_padding_row<V: Copy>(
        &self,
        region: &mut Region<V>,
        offset: &mut usize,
        enabled: bool,
    )
        requires
            *old(offset) < usize::MAX,
        ensures
            *final(offset) == *old(offset) + 1,
            final(region).actions@ == old(region).actions@ + self.padding_actions(
                *old(offset),
                enabled,
            ),
    {
        let table = &self.copy_table;
        // q_enable
        region.assign_fixed(
            Annotation::Plain(Label::QEnable),
            self.q_enable,
            *offset,
            if enabled {
                CellValue::One
            } else {
                CellValue::Zero
            },
        );
        // q_step
        if enabled && *offset % 2 == 0 {
            region.enable_selector(self.q_step, *offset);
        }
        let cells: Vec<(AdviceColumn, Label, CellValue<V>)> = vec![
            (table.is_first, Label::IsFirst, CellValue::Zero),
            (self.is_last, Label::IsLast, CellValue::Zero),
            (table.id.lo, Label::IdLo, CellValue::Zero),
            (table.id.hi, Label::IdHi, CellValue::Zero),
            (table.addr, Label::Addr, CellValue::Zero),
            (table.src_addr_end, Label::SrcAddrEnd, CellValue::One),
            (table.bytes_left, Label::BytesLeft, CellValue::Zero),
            (self.value, Label::Value, CellValue::Zero),
            (self.value_acc_rlc, Label::ValueAccRlc, CellValue::Zero),
            (table.rlc_acc, Label::RlcAcc, CellValue::Zero),
            (self.is_code, Label::IsCode, CellValue::Zero),
            (self.is_pad, Label::IsPad, CellValue::Zero),
            (table.rw_counter, Label::RwCounter, CellValue::Zero),
            (table.rwc_inc_left, Label::RwcIncLeft, CellValue::Zero),
        ];
        assert(cells@ =~= self.padding_cells());
        let ghost before = region.actions@;
        let ghost assigned = cells@.map_values(
            |cell: (AdviceColumn, Label, CellValue<V>)|
                RegionAction::AssignAdvice {
                    annotation: Annotation::Padding(cell.1),
                    column: cell.0,
                    offset: *offset,
                    value: cell.2,
                },
        );
        let mut k: usize = 0;
        while k < cells.len()
            invariant
                k <= cells@.len(),
                assigned == cells@.map_values(
                    |cell: (AdviceColumn, Label, CellValue<V>)|
                        RegionAction::AssignAdvice {
                            annotation: Annotation::Padding(cell.1),
                            column: cell.0,
                            offset: *offset,
                            value: cell.2,
                        },
                ),
                region.actions@ == before + assigned.take(k as int),
            decreases cells@.len() - k,
        {
            let (column, label, value) = cells[k];
            region.assign_advice(Annotation::Padding(label), column, *offset, value);
            k += 1;
        }
        assert(assigned.take(k as int) =~= assigned);
        // tag
        region.assign_tag(table.tag, *offset, CopyDataType::Padding);
        // Assign LT gadget
        region.assign_lt(self.addr_lt_addr_end, *offset, 0, 1);
        assert(region.actions@ =~= old(region).actions@ + self.padding_actions(*offset, enabled));

        *offset += 1;
    }

    /// What the first `n` events assign.
    pub open spec fn events_actions<V>(
        self,
        copy_events: Seq<CopyEvent>,
        rows: Seq<Vec<CopyRow<V>>>,
        n: nat,
    ) -> Seq<RegionAction<V>>
        decreases n,
    {
        if n == 0 {
            seq![]
        } else {
            self.events_actions(copy_events, rows, (n - 1) as nat) + self.event_actions(
                copy_events[n - 1],
                rows[n - 1]@,
                rows_needed(copy_events, (n - 1) as nat) as int,
                rows[n - 1]@.len(),
            )
        }
    }

    /// What a region of `max_copy_rows` rows assigns: the rows of the events, then enabled
    /// padding, then padding that is disabled.
    pub open spec fn layout_actions<V>(
        self,
        copy_events: Seq<CopyEvent>,
        rows: Seq<Vec<CopyRow<V>>>,
        max_copy_rows: int,
    ) -> Seq<RegionAction<V>> {
        let needed = rows_needed(copy_events, copy_events.len());
        let enabled_rows = max_copy_rows - DISABLED_ROWS;
        seq![
            RegionAction::NameColumn { column: self.is_last, name: "is_last" },
            RegionAction::NameColumn { column: self.value, name: "value" },
            RegionAction::NameColumn { column: self.is_code, name: "is_code" },
            RegionAction::NameColumn { column: self.is_pad, name: "is_pad" },
        ] + self.events_actions(copy_events, rows, copy_events.len()) + self.filler_actions(
            needed as int,
            true,
            (enabled_rows - needed) as nat,
        ) + self.filler_actions(enabled_rows, false, DISABLED_ROWS as nat)
    }

    /// Assign vec of copy events
    ///
    /// `rows` holds the values of the rows of each event.
    pub fn assign_copy_events<V: Copy>(
        &self,
        layouter: &mut Layouter<V>,
        copy_events: &Vec<CopyEvent>,
        rows: &Vec<Vec<CopyRow<V>>>,
        max_copy_rows: usize,
    )
        requires
            rows_match(copy_events@, rows@),
            sources_addressable(copy_events@),
            rows_needed(copy_events@, copy_events@.len()) + DISABLED_ROWS + UNUSED_ROWS
                <= max_copy_rows,
            max_copy_rows % 2 == 0,
        ensures
            final(layouter).actions@.len() == old(layouter).actions@.len() + 2,
            old(layouter).actions@.is_prefix_of(final(layouter).actions@),
            final(layouter).actions@[old(layouter).actions@.len() as int] == (
            LayouterAction::<V>::LoadLt { chip: self.addr_lt_addr_end }),
            final(layouter).actions@.last() matches LayouterAction::AssignRegion { name, region }
                && name@ == "assign copy table"@ && region.actions@ == self.layout_actions(
                copy_events@,
                rows@,
                max_copy_rows as int,
            ),
    {
        let copy_rows_needed = count_rows(copy_events);
        let filler_rows = max_copy_rows - copy_rows_needed - DISABLED_ROWS;

        layouter.actions.push(LayouterAction::LoadLt { chip: self.addr_lt_addr_end });

        let mut region = Region::new();
        region.name_column("is_last", self.is_last);
        region.name_column("value", self.value);
        region.name_column("is_code", self.is_code);
        region.name_column("is_pad", self.is_pad);

        let ghost names = region.actions@;
        let ghost needed = rows_needed(copy_events@, copy_events@.len());
        let mut offset: usize = 0;
        let mut n: usize = 0;
        while n < copy_events.len()
            invariant
                n <= copy_events@.len(),
                rows_match(copy_events@, rows@),
                sources_addressable(copy_events@),
                needed == rows_needed(copy_events@, copy_events@.len()),
                needed + DISABLED_ROWS + UNUSED_ROWS <= max_copy_rows,
                offset == rows_needed(copy_events@, n as nat),
                region.actions@ == names + self.events_actions(copy_events@, rows@, n as nat),
            decreases copy_events@.len() - n,
        {
            let ghost before = region.actions@;
            proof {
                assert(rows@[n as int]@.len() == 2 * copy_events@[n as int].bytes@.len());
                lemma_rows_needed_grow(copy_events@, (n + 1) as nat, copy_events@.len());
            }
            self.assign_copy_event(&mut region, &mut offset, &copy_events[n], &rows[n]);
            n += 1;
            assert(region.actions@ =~= names + self.events_actions(copy_events@, rows@, n as nat));
        }

        let ghost events = region.actions@;
        let mut k: usize = 0;
        while k < filler_rows
            invariant
                k <= filler_rows,
                filler_rows + needed + DISABLED_ROWS == max_copy_rows,
                offset == needed + k,
                region.actions@ == events + self.filler_actions(needed as int, true, k as nat),
            decreases filler_rows - k,
        {
            self.assign_padding_row(&mut region, &mut offset, true);
            k += 1;
            assert(region.actions@ =~= events + self.filler_actions(needed as int, true, k as nat));
        }

        let ghost enabled = region.actions@;
        let ghost enabled_rows = offset as int;
        let mut k: usize = 0;
        while k < DISABLED_ROWS
            invariant
                k <= DISABLED_ROWS,
                enabled_rows + DISABLED_ROWS == max_copy_rows,
                offset == enabled_rows + k,
                region.actions@ == enabled + self.filler_actions(enabled_rows, false, k as nat),
            decreases DISABLED_ROWS - k,
        {
            self.assign_padding_row(&mut region, &mut offset, false);
            k += 1;
            assert(region.actions@ =~= enabled + self.filler_actions(
                enabled_rows,
                false,
                k as nat,
            ));
        }
        assert(region.actions@ =~= self.layout_actions(copy_events@, rows@, max_copy_rows as int));
        layouter.actions.push(LayouterAction::AssignRegion { name: "assign copy table", region });
    }
}

/// The number of rows of the first `n` events: two for each byte.
pub open spec fn rows_needed(copy_events: Seq<CopyEvent>, n: nat) -> nat
    decreases n,
{
    if n == 0 {
        0
    } else {
        rows_needed(copy_events, (n - 1) as nat) + 2 * copy_events[n - 1].bytes@.len()
    }
}

/// Whether there are two rows for each byte of each event.
pub open spec fn rows_match<V>(copy_events: Seq<CopyEvent>, rows: Seq<Vec<CopyRow<V>>>) -> bool {
    &&& rows.len() == copy_events.len()
    &&& forall|k: int|
        0 <= k < rows.len() ==> (#[trigger] rows[k])@.len() == 2 * copy_events[k].bytes@.len()
}

/// Whether the source addresses of all bytes are numbers of 64 bits.
pub open spec fn sources_addressable(copy_events: Seq<CopyEvent>) -> bool {
    forall|k: int|
        0 <= k < copy_events.len() ==> (#[trigger] copy_events[k]).src_addr
            + copy_events[k].bytes@.len() <= u64::MAX + 1
}

/// More events need no fewer rows.
pub proof fn lemma_rows_needed_grow(copy_events: Seq<CopyEvent>, n: nat, m: nat)
    requires
        n <= m,
    ensures
        rows_needed(copy_events, n) <= rows_needed(copy_events, m),
    decreases m - n,
{
    if n < m {
        lemma_rows_needed_grow(copy_events, n, (m - 1) as nat);
    }
}

/// The number of rows of all events.
pub fn count_rows(copy_events: &Vec<CopyEvent>) -> (rows: usize)
    requires
        rows_needed(copy_events@, copy_events@.len()) <= usize::MAX,
    ensures
        rows == rows_needed(copy_events@, copy_events@.len()),
{
    let mut rows: usize = 0;
    let mut n: usize = 0;
    while n < copy_events.len()
        invariant
            n <= copy_events@.len(),
            rows == rows_needed(copy_events@, n as nat),
            rows_needed(copy_events@, copy_events@.len()) <= usize::MAX,
        decreases copy_events@.len() - n,
    {
        proof {
            lemma_rows_needed_grow(copy_events@, (n + 1) as nat, copy_events@.len());
        }
        rows += copy_events[n].bytes.len() * 2;
        n += 1;
    }
    rows
}

} // verus!
