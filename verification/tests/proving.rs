//! Runs the gates of the copy circuit on assigned regions with halo2's mock prover.
use copy_circuit::assignment::{CopyByte, CopyEvent, CopyRow};
use copy_circuit::binary_number::{BinaryNumberConfig, CopyDataType};
use copy_circuit::circuit::{Block, CircuitsParams, CopyCircuit};
use copy_circuit::config::{CopyCircuitConfig, CopyCircuitConfigArgs};
use copy_circuit::constraint_builder::Word;
use copy_circuit::constraint_system::{ConstraintSystem, NamedColumn};
use copy_circuit::expression::{AdviceColumn, AnyColumn, Expression, FixedColumn};
use copy_circuit::region::{Annotation, CellValue, Label, Layouter, LayouterAction, RegionAction};
use copy_circuit::table::{BytecodeTable, Challenges, CopyTable, RwTable, TxTable};
use halo2_proofs::arithmetic::Field;
use halo2_proofs::circuit::{Layouter as _, SimpleFloorPlanner, Value};
use halo2_proofs::dev::MockProver;
use halo2_proofs::pasta::Fp;
use halo2_proofs::plonk;
use halo2_proofs::poly::Rotation;

/// The base of the random linear combination.
fn challenge() -> Fp {
    Fp::from(1_000_003)
}

/// The number of advice columns that the tables take up.
const TABLE_COLUMNS: usize = 37;

fn advice(index: usize) -> AdviceColumn {
    AdviceColumn { index }
}

fn named(from: usize, count: usize, name: &'static str) -> Vec<NamedColumn> {
    (from..from + count)
        .map(|index| NamedColumn { column: AnyColumn::Advice(advice(index)), name })
        .collect()
}

fn configure() -> (ConstraintSystem, CopyCircuitConfig) {
    let mut meta = ConstraintSystem {
        advice_phases: vec![copy_circuit::constraint_system::Phase::First; TABLE_COLUMNS],
        selectors: vec![],
        gates: vec![],
        lookups: vec![],
        comparisons: vec![],
        annotations: vec![],
    };
    let copy_table = CopyTable {
        is_first: advice(0),
        id: Word { lo: advice(1), hi: advice(2) },
        addr: advice(3),
        src_addr_end: advice(4),
        bytes_left: advice(5),
        rlc_acc: advice(6),
        rw_counter: advice(7),
        rwc_inc_left: advice(8),
        tag: BinaryNumberConfig { bits: [advice(9), advice(10), advice(11)] },
        annotations: vec![],
    };
    let args = CopyCircuitConfigArgs {
        tx_table: TxTable { columns: named(12, 5, "tx"), call_data_tag: 9 },
        rw_table: RwTable { columns: named(17, 14, "rw"), memory_target: 2, tx_log_target: 11 },
        bytecode_table: BytecodeTable { columns: named(31, 6, "bytecode"), byte_tag: 1 },
        copy_table,
        q_enable: FixedColumn { index: 0 },
        challenges: Challenges { keccak_input: Expression::Challenge(0) },
    };
    let config = CopyCircuitConfig::new(&mut meta, args);
    (meta, config)
}

#[derive(Clone)]
struct Columns {
    advice: Vec<plonk::Column<plonk::Advice>>,
    q_enable: plonk::Column<plonk::Fixed>,
    /// Holds what `q_enable` holds two rows below.
    q_enable_below: plonk::Column<plonk::Fixed>,
    q_step: plonk::Selector,
}

impl Columns {
    fn convert(&self, cells: &mut plonk::VirtualCells<'_, Fp>, e: &Expression) -> plonk::Expression<Fp> {
        match e {
            Expression::Constant(value) => plonk::Expression::Constant(Fp::from(*value)),
            Expression::Selector(_) => cells.query_selector(self.q_step),
            Expression::Fixed(_, rotation) if rotation.0 == 0 => cells.query_fixed(self.q_enable),
            Expression::Fixed(_, rotation) => {
                assert_eq!(rotation.0, 2);
                cells.query_fixed(self.q_enable_below)
            }
            Expression::Advice(column, rotation) => {
                cells.query_advice(self.advice[column.index], Rotation(rotation.0))
            }
            Expression::Challenge(_) => plonk::Expression::Constant(challenge()),
            Expression::Negated(inner) => -self.convert(cells, inner),
            Expression::Sum(left, right) => {
                let left = self.convert(cells, left);
                left + self.convert(cells, right)
            }
            Expression::Product(left, right) => {
                let left = self.convert(cells, left);
                left * self.convert(cells, right)
            }
        }
    }
}

struct Assigned {
    actions: Vec<RegionAction<Fp>>,
}

fn cell(value: &CellValue<Fp>) -> Value<Fp> {
    Value::known(match value {
        CellValue::Zero => Fp::ZERO,
        CellValue::One => Fp::ONE,
        CellValue::Known(value) => *value,
    })
}

impl plonk::Circuit<Fp> for Assigned {
    type Config = Columns;
    type FloorPlanner = SimpleFloorPlanner;

    fn without_witnesses(&self) -> Self {
        Assigned { actions: self.actions.clone() }
    }

    fn configure(meta: &mut plonk::ConstraintSystem<Fp>) -> Columns {
        let (system, _) = configure();
        let columns = Columns {
            advice: system.advice_phases.iter().map(|_| meta.advice_column()).collect(),
            q_enable: meta.fixed_column(),
            q_enable_below: meta.fixed_column(),
            q_step: meta.complex_selector(),
        };
        for gate in &system.gates {
            meta.create_gate(gate.name, |cells| {
                gate.constraints
                    .iter()
                    .map(|c| (c.name, columns.convert(cells, &c.poly)))
                    .collect::<Vec<_>>()
            });
        }
        columns
    }

    fn synthesize(
        &self,
        columns: Columns,
        mut layouter: impl halo2_proofs::circuit::Layouter<Fp>,
    ) -> Result<(), plonk::Error> {
        layouter.assign_region(
            || "assign copy table",
            |mut region| {
                for action in &self.actions {
                    match action {
                        RegionAction::NameColumn { .. } => {}
                        RegionAction::AssignAdvice { column, offset, value, .. } => {
                            let column = columns.advice[column.index];
                            region.assign_advice(|| "cell", column, *offset, || cell(value))?;
                        }
                        RegionAction::AssignFixed { offset, value, .. } => {
                            region.assign_fixed(|| "q", columns.q_enable, *offset, || cell(value))?;
                            if *offset >= 2 {
                                region.assign_fixed(
                                    || "q",
                                    columns.q_enable_below,
                                    *offset - 2,
                                    || cell(value),
                                )?;
                            }
                        }
                        RegionAction::EnableSelector { offset, .. } => {
                            columns.q_step.enable(&mut region, *offset)?;
                        }
                        RegionAction::AssignTag { chip, offset, tag } => {
                            for (column, bit) in chip.bits.iter().zip(tag.as_bits()) {
                                let column = columns.advice[column.index];
                                let bit = Value::known(Fp::from(bit as u64));
                                region.assign_advice(|| "bit", column, *offset, || bit)?;
                            }
                        }
                        RegionAction::AssignLt { chip, offset, lhs, rhs } => {
                            let column = columns.advice[chip.lt.index];
                            let lt = Value::known(Fp::from((lhs < rhs) as u64));
                            region.assign_advice(|| "lt", column, *offset, || lt)?;
                        }
                    }
                }
                Ok(())
            },
        )
    }
}

/// What a copy event is made from.
struct Copy {
    src: CopyDataType,
    dst: CopyDataType,
    src_id: u64,
    dst_id: u64,
    dst_addr: u64,
    rw_counter: u64,
    event: CopyEvent,
}

impl Copy {
    fn new(src: CopyDataType, dst: CopyDataType, bytes: &[u8], src_addr: u64, src_addr_end: u64) -> Copy {
        let bytes = bytes.iter().map(|&value| CopyByte { value, is_code: false }).collect();
        Copy {
            src,
            dst,
            src_id: 5,
            dst_id: 6,
            dst_addr: 40,
            rw_counter: 100,
            event: CopyEvent { src_addr, src_addr_end, bytes },
        }
    }

    fn rows(&self) -> Vec<CopyRow<Fp>> {
        let n = self.event.bytes.len();
        let moves = |tag: CopyDataType, pad: bool| {
            (tag == CopyDataType::Memory || tag == CopyDataType::TxLog) && !pad
        };
        let pads: Vec<bool> = (0..n as u64)
            .map(|j| self.event.src_addr + j >= self.event.src_addr_end)
            .collect();
        let total: u64 = pads
            .iter()
            .map(|&pad| moves(self.src, pad) as u64 + moves(self.dst, false) as u64)
            .sum();
        let mut acc = Fp::ZERO;
        let mut accs = vec![];
        for byte in &self.event.bytes {
            acc = acc * challenge() + Fp::from(byte.value as u64);
            accs.push(acc);
        }
        let accumulates = (self.src == CopyDataType::Memory && self.dst == CopyDataType::Bytecode)
            || self.dst == CopyDataType::RlcAcc;
        let rlc_acc = if accumulates { acc } else { Fp::ZERO };
        let mut done = 0;
        let mut rows = vec![];
        for m in 0..2 * n {
            let j = m / 2;
            let is_read = m % 2 == 0;
            let tag = if is_read { self.src } else { self.dst };
            let pad = is_read && pads[j];
            let id = if is_read { self.src_id } else { self.dst_id };
            let addr = j as u64 + if is_read { self.event.src_addr } else { self.dst_addr };
            rows.push(CopyRow {
                tag,
                table_row: [
                    (Fp::from((m == 0) as u64), Label::IsFirst),
                    (Fp::from(id), Label::IdLo),
                    (Fp::ZERO, Label::IdHi),
                    (Fp::from(addr), Label::Addr),
                    (Fp::from(self.event.src_addr_end), Label::SrcAddrEnd),
                    (Fp::from((n - j) as u64), Label::BytesLeft),
                    (rlc_acc, Label::RlcAcc),
                    (Fp::from(self.rw_counter + done), Label::RwCounter),
                    (Fp::from(total - done), Label::RwcIncLeft),
                ],
                circuit_row: [
                    (Fp::from((m == 2 * n - 1) as u64), Label::IsLast),
                    (Fp::from(self.event.bytes[j].value as u64), Label::Value),
                    (accs[j], Label::ValueAccRlc),
                    (Fp::from(pad as u64), Label::IsPad),
                    (Fp::ZERO, Label::IsCode),
                ],
            });
            done += moves(tag, pad) as u64;
        }
        rows
    }
}

/// Assigns the events, with their rows, to a region of `max_copy_rows` rows.
fn assign(events: Vec<CopyEvent>, rows: Vec<Vec<CopyRow<Fp>>>, max_copy_rows: usize) -> Vec<RegionAction<Fp>> {
    let (_, config) = configure();
    let circuit = CopyCircuit::<(), (), ()>::new(events, max_copy_rows);
    let mut layouter = Layouter { actions: vec![] };
    circuit.synthesize_sub(&config, &rows, &mut layouter);
    assert_eq!(layouter.actions.len(), 2);
    assert_eq!(layouter.actions[0], LayouterAction::LoadLt { chip: config.addr_lt_addr_end });
    match layouter.actions.pop() {
        Some(LayouterAction::AssignRegion { name, region }) => {
            assert_eq!(name, "assign copy table");
            region.actions
        }
        _ => panic!("the region is assigned last"),
    }
}

/// The names of the constraints that fail.
fn failures(actions: Vec<RegionAction<Fp>>) -> String {
    let prover = MockProver::run(8, &Assigned { actions }, vec![]).unwrap();
    match prover.verify() {
        Ok(()) => String::new(),
        Err(failures) => format!("{:?}", failures),
    }
}

fn failures_of(copies: Vec<Copy>, max_copy_rows: usize) -> String {
    let rows = copies.iter().map(|c| c.rows()).collect();
    failures(assign(copies.into_iter().map(|c| c.event).collect(), rows, max_copy_rows))
}

/// Changes one cell of the rows of a copy and returns the names of the constraints that fail.
fn failures_with(copy: Copy, row: usize, in_table: bool, cell: usize, value: Fp) -> String {
    let mut rows = copy.rows();
    if in_table {
        rows[row].table_row[cell].0 = value;
    } else {
        rows[row].circuit_row[cell].0 = value;
    }
    failures(assign(vec![copy.event], vec![rows], 20))
}

fn memory_to_log() -> Copy {
    Copy::new(CopyDataType::Memory, CopyDataType::TxLog, &[3, 1, 4, 1], 10, 14)
}

fn memory_to_bytecode() -> Copy {
    Copy::new(CopyDataType::Memory, CopyDataType::Bytecode, &[2, 7, 1, 8], 10, 14)
}

#[test]
fn padding_alone_is_accepted() {
    assert_eq!(failures_of(vec![], 4), "");
    assert_eq!(failures_of(vec![], 12), "");
}

#[test]
fn copies_of_all_kinds_are_accepted() {
    assert_eq!(failures_of(vec![memory_to_log()], 20), "");
    assert_eq!(failures_of(vec![memory_to_bytecode()], 20), "");
    let calldata = Copy::new(CopyDataType::TxCalldata, CopyDataType::Memory, &[9, 9], 0, 2);
    assert_eq!(failures_of(vec![calldata], 20), "");
    let code = Copy::new(CopyDataType::Bytecode, CopyDataType::Memory, &[1, 2, 3], 7, 10);
    assert_eq!(failures_of(vec![code], 20), "");
    let accumulator = Copy::new(CopyDataType::Memory, CopyDataType::RlcAcc, &[5], 0, 1);
    assert_eq!(failures_of(vec![accumulator], 20), "");
}

#[test]
fn a_region_without_a_row_to_spare_is_accepted() {
    assert_eq!(failures_of(vec![memory_to_log()], 12), "");
}

#[test]
fn the_minimum_number_of_rows_is_enough() {
    let copies = || vec![memory_to_log(), memory_to_bytecode()];
    let block = Block {
        copy_events: copies().into_iter().map(|c| c.event).collect(),
        circuits_params: CircuitsParams {
            max_copy_rows: 40,
            max_txs: 0,
            max_calldata: 0,
            max_rws: 0,
        },
        txs: Vec::<()>::new(),
        rws: (),
        bytecodes: (),
    };
    let (minimum, _) = CopyCircuit::min_num_rows_block(&block);
    assert_eq!(minimum, 20);
    assert_eq!(failures_of(copies(), minimum), "");
}

#[test]
fn an_event_needs_the_unused_rows() {
    let mut actions = assign(vec![memory_to_log().event], vec![memory_to_log().rows()], 12);
    // Disable the rows right after the event.
    for action in actions.iter_mut() {
        if let RegionAction::AssignFixed { offset, value, .. } = action {
            if *offset >= 8 {
                *value = CellValue::Zero;
            }
        }
    }
    actions.retain(|a| !matches!(a, RegionAction::EnableSelector { offset, .. } if *offset >= 8));
    assert!(failures(actions).contains("the next step is enabled"));
}

#[test]
fn events_follow_each_other() {
    let empty = Copy::new(CopyDataType::Memory, CopyDataType::Memory, &[], 0, 0);
    let copies = vec![memory_to_log(), empty, memory_to_bytecode(), memory_to_log()];
    assert_eq!(failures_of(copies, 40), "");
}

#[test]
fn reads_beyond_the_source_are_padding() {
    let copy = || Copy::new(CopyDataType::TxCalldata, CopyDataType::Memory, &[7, 0, 0], 4, 5);
    assert_eq!(failures_of(vec![copy()], 20), "");
    let mut nonzero = copy();
    nonzero.event.bytes[1].value = 1;
    assert!(failures_of(vec![nonzero], 20).contains("value == 0 when is_pad == 1 for read"));
    let failed = failures_with(copy(), 2, false, 3, Fp::ZERO);
    assert!(failed.contains("is_pad == 1 - (src_addr < src_addr_end) for read row"));
    let failed = failures_with(copy(), 1, false, 3, Fp::ONE);
    assert!(failed.contains("is_pad == 0 for write row"));
}

#[test]
fn flags_have_to_be_boolean() {
    let failed = failures_with(memory_to_log(), 0, true, 0, Fp::from(2));
    assert!(failed.contains("is_first is boolean"));
    let failed = failures_with(memory_to_log(), 7, false, 0, Fp::from(2));
    assert!(failed.contains("is_last is boolean"));
    let failed = failures_with(memory_to_log(), 1, true, 0, Fp::ONE);
    assert!(failed.contains("is_first == 0 when q_step == 0"));
    let failed = failures_with(memory_to_log(), 2, false, 0, Fp::ONE);
    assert!(failed.contains("is_last == 0 when q_step == 1"));
}

#[test]
fn an_event_has_to_end() {
    let failed = failures_with(memory_to_log(), 7, false, 0, Fp::ZERO);
    assert!(failed.contains("rows[0].tag == rows[2].tag"));
    // Tags that go on to the end of the enabled rows meet a disabled one there.
    let mut rows = memory_to_log().rows();
    rows[7].circuit_row[0].0 = Fp::ZERO;
    let mut actions = assign(vec![memory_to_log().event], vec![rows], 12);
    for action in actions.iter_mut() {
        if let RegionAction::AssignTag { offset, tag, .. } = action {
            *tag = if *offset % 2 == 0 { CopyDataType::Memory } else { CopyDataType::TxLog };
        }
    }
    assert!(failures(actions).contains("the next step is enabled"));
}

#[test]
fn both_sides_move_on() {
    let failed = failures_with(memory_to_log(), 4, true, 3, Fp::from(13));
    assert!(failed.contains("rows[0].addr + 1 == rows[2].addr"));
    let failed = failures_with(memory_to_log(), 5, true, 1, Fp::from(7));
    assert!(failed.contains("rows[0].id == rows[2].id"));
    let failed = failures_with(memory_to_log(), 4, true, 4, Fp::from(15));
    assert!(failed.contains("rows[0].src_addr_end == rows[2].src_addr_end for non-last step"));
    // The write rows leave the end of the source at zero; they have to agree on it too.
    let mut actions = assign(vec![memory_to_log().event], vec![memory_to_log().rows()], 12);
    actions.push(RegionAction::AssignAdvice {
        annotation: Annotation::AtRow(Label::SrcAddrEnd),
        column: advice(4),
        offset: 5,
        value: CellValue::Known(Fp::ONE),
    });
    let failed = failures(actions);
    assert!(failed.contains("rows[0].src_addr_end == rows[2].src_addr_end for non-last step"));
}

#[test]
fn values_are_copied() {
    let failed = failures_with(memory_to_log(), 3, false, 1, Fp::from(2));
    assert!(failed.contains("write value == read value"));
    let failed = failures_with(memory_to_log(), 3, false, 2, Fp::from(2));
    assert!(failed.contains("value_acc_rlc is same for read-write rows"));
}

#[test]
fn bytes_are_counted() {
    let failed = failures_with(memory_to_log(), 6, true, 5, Fp::from(2));
    assert!(failed.contains("bytes_left == 1 for last step"));
    let failed = failures_with(memory_to_log(), 2, true, 5, Fp::from(4));
    assert!(failed.contains("bytes_left == bytes_left_next + 1 for non-last step"));
}

#[test]
fn accesses_are_counted() {
    let failed = failures_with(memory_to_log(), 3, true, 7, Fp::from(102));
    assert!(failed.contains("rows[0].rw_counter + rw_diff == rows[1].rw_counter"));
    let failed = failures_with(memory_to_log(), 3, true, 8, Fp::from(6));
    assert!(failed.contains("rows[0].rwc_inc_left - rw_diff == rows[1].rwc_inc_left"));
    let failed = failures_with(memory_to_log(), 7, true, 8, Fp::from(2));
    assert!(failed.contains("rwc_inc_left == rw_diff for last row in the copy slot"));
}

#[test]
fn values_are_accumulated() {
    let failed = failures_with(memory_to_bytecode(), 0, false, 2, Fp::from(3));
    assert!(failed.contains("value == value_acc_rlc at every first copy event"));
    let failed = failures_with(memory_to_bytecode(), 4, false, 2, Fp::from(3));
    assert!(failed.contains("value_acc_rlc(2) == value_acc_rlc(0) * r + value(2)"));
    let failed = failures_with(memory_to_bytecode(), 7, true, 6, Fp::from(3));
    assert!(failed.contains("value_acc_rlc == rlc_acc on the last row"));
    let failed = failures_with(memory_to_bytecode(), 3, true, 6, Fp::from(3));
    assert!(failed.contains("rows[0].rlc_acc == rows[1].rlc_acc"));
}

#[test]
fn only_a_code_hash_fills_both_limbs() {
    let code = || Copy::new(CopyDataType::Bytecode, CopyDataType::Memory, &[1], 7, 8);
    assert_eq!(failures_with(code(), 0, true, 2, Fp::ONE), "");
    assert!(failures_with(code(), 1, true, 2, Fp::ONE).contains("id_hi === 0 when Momory"));
    let log = || Copy::new(CopyDataType::Bytecode, CopyDataType::TxLog, &[1], 7, 8);
    assert!(failures_with(log(), 1, true, 2, Fp::ONE).contains("id_hi === 0 when TxLog"));
    let calldata = || Copy::new(CopyDataType::TxCalldata, CopyDataType::Bytecode, &[1], 7, 8);
    assert!(failures_with(calldata(), 0, true, 2, Fp::ONE).contains("id_hi === 0 when TxCalldata"));
}
