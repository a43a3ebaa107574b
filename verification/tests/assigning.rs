//! The steps that an assignment takes, one by one.
use copy_circuit::assignment::{count_rows, CopyByte, CopyEvent, CopyRow};
use copy_circuit::assignment::{DISABLED_ROWS, UNUSED_ROWS};
use copy_circuit::binary_number::{BinaryNumberConfig, CopyDataType};
use copy_circuit::circuit::{Block, CircuitsParams, CopyCircuit, ExternalData};
use copy_circuit::config::{CopyCircuitConfig, LtConfig};
use copy_circuit::constraint_builder::Word;
use copy_circuit::expression::{AdviceColumn, FixedColumn, Selector};
use copy_circuit::region::{Annotation, CellValue, Label, Layouter, LayouterAction, Region};
use copy_circuit::region::RegionAction;
use copy_circuit::table::{BytecodeTable, CopyTable, RwTable, TxTable};

fn advice(index: usize) -> AdviceColumn {
    AdviceColumn { index }
}

fn config() -> CopyCircuitConfig {
    CopyCircuitConfig {
        q_step: Selector { index: 0 },
        is_last: advice(20),
        value: advice(21),
        value_acc_rlc: advice(22),
        is_pad: advice(23),
        is_code: advice(24),
        q_enable: FixedColumn { index: 0 },
        copy_table: CopyTable {
            is_first: advice(0),
            id: Word { lo: advice(1), hi: advice(2) },
            addr: advice(3),
            src_addr_end: advice(4),
            bytes_left: advice(5),
            rlc_acc: advice(6),
            rw_counter: advice(7),
            rwc_inc_left: advice(8),
            tag: BinaryNumberConfig { bits: [advice(9), advice(10), advice(11)] },
            annotations: vec![],
        },
        addr_lt_addr_end: LtConfig { lt: advice(25) },
        tx_table: TxTable { columns: vec![], call_data_tag: 0 },
        rw_table: RwTable { columns: vec![], memory_target: 0, tx_log_target: 0 },
        bytecode_table: BytecodeTable { columns: vec![], byte_tag: 0 },
    }
}

fn event(src_addr: u64, src_addr_end: u64, bytes: usize) -> CopyEvent {
    CopyEvent {
        src_addr,
        src_addr_end,
        bytes: vec![CopyByte { value: 7, is_code: false }; bytes],
    }
}

/// A row whose cells are numbered from `base` on.
fn row(tag: CopyDataType, base: u32) -> CopyRow<u32> {
    let labels = [
        Label::IsFirst,
        Label::IdLo,
        Label::IdHi,
        Label::Addr,
        Label::SrcAddrEnd,
        Label::BytesLeft,
        Label::RlcAcc,
        Label::RwCounter,
        Label::RwcIncLeft,
    ];
    let mut table_row = [(0, Label::IsFirst); 9];
    for (k, label) in labels.iter().enumerate() {
        table_row[k] = (base + k as u32, *label);
    }
    CopyRow {
        tag,
        table_row,
        circuit_row: [
            (base + 10, Label::IsLast),
            (base + 11, Label::Value),
            (base + 12, Label::ValueAccRlc),
            (base + 13, Label::IsPad),
            (base + 14, Label::IsCode),
        ],
    }
}

fn cell(label: Label, column: usize, offset: usize, value: u32) -> RegionAction<u32> {
    RegionAction::AssignAdvice {
        annotation: Annotation::AtRow(label),
        column: advice(column),
        offset,
        value: CellValue::Known(value),
    }
}

fn enable(offset: usize, value: CellValue<u32>) -> RegionAction<u32> {
    RegionAction::AssignFixed {
        annotation: Annotation::Plain(Label::QEnable),
        column: FixedColumn { index: 0 },
        offset,
        value,
    }
}

fn pad(label: Label, column: usize, offset: usize, value: CellValue<u32>) -> RegionAction<u32> {
    RegionAction::AssignAdvice {
        annotation: Annotation::Padding(label),
        column: advice(column),
        offset,
        value,
    }
}

#[test]
fn event_rows_assign_every_cell_but_two_of_the_write_row() {
    let config = config();
    let mut region = Region::new();
    let mut offset = 6;
    let rows = vec![row(CopyDataType::Memory, 100), row(CopyDataType::TxLog, 200)];
    config.assign_copy_event(&mut region, &mut offset, &event(30, 31, 1), &rows);
    assert_eq!(offset, 8);
    let tag = config.copy_table.tag;
    let expected = vec![
        cell(Label::IsFirst, 0, 6, 100),
        cell(Label::IdLo, 1, 6, 101),
        cell(Label::IdHi, 2, 6, 102),
        cell(Label::Addr, 3, 6, 103),
        cell(Label::SrcAddrEnd, 4, 6, 104),
        cell(Label::BytesLeft, 5, 6, 105),
        cell(Label::RlcAcc, 6, 6, 106),
        cell(Label::RwCounter, 7, 6, 107),
        cell(Label::RwcIncLeft, 8, 6, 108),
        RegionAction::EnableSelector { selector: config.q_step, offset: 6 },
        enable(6, CellValue::One),
        cell(Label::IsLast, 20, 6, 110),
        cell(Label::Value, 21, 6, 111),
        cell(Label::ValueAccRlc, 22, 6, 112),
        cell(Label::IsPad, 23, 6, 113),
        cell(Label::IsCode, 24, 6, 114),
        RegionAction::AssignTag { chip: tag, offset: 6, tag: CopyDataType::Memory },
        RegionAction::AssignLt { chip: config.addr_lt_addr_end, offset: 6, lhs: 30, rhs: 31 },
        cell(Label::IsFirst, 0, 7, 200),
        cell(Label::IdLo, 1, 7, 201),
        cell(Label::IdHi, 2, 7, 202),
        cell(Label::Addr, 3, 7, 203),
        cell(Label::RlcAcc, 6, 7, 206),
        cell(Label::RwCounter, 7, 7, 207),
        cell(Label::RwcIncLeft, 8, 7, 208),
        enable(7, CellValue::One),
        cell(Label::IsLast, 20, 7, 210),
        cell(Label::Value, 21, 7, 211),
        cell(Label::ValueAccRlc, 22, 7, 212),
        cell(Label::IsPad, 23, 7, 213),
        cell(Label::IsCode, 24, 7, 214),
        RegionAction::AssignTag { chip: tag, offset: 7, tag: CopyDataType::TxLog },
    ];
    assert_eq!(region.actions, expected);
}

#[test]
fn compared_addresses_move_on_with_the_bytes() {
    let mut region = Region::new();
    let mut offset = 0;
    let rows = vec![row(CopyDataType::Memory, 0); 6];
    let last = event(u64::MAX - 2, 9, 3);
    config().assign_copy_event(&mut region, &mut offset, &last, &rows);
    let compared: Vec<(usize, u64, u64)> = region
        .actions
        .iter()
        .filter_map(|action| match action {
            RegionAction::AssignLt { offset, lhs, rhs, .. } => Some((*offset, *lhs, *rhs)),
            _ => None,
        })
        .collect();
    assert_eq!(compared, vec![(0, u64::MAX - 2, 9), (2, u64::MAX - 1, 9), (4, u64::MAX, 9)]);
}

#[test]
fn an_event_without_rows_assigns_nothing() {
    let mut region: Region<u32> = Region::new();
    let mut offset = 3;
    config().assign_copy_event(&mut region, &mut offset, &event(u64::MAX, 0, 0), &vec![]);
    assert_eq!(offset, 3);
    assert_eq!(region.actions, vec![]);
}

fn padding(config: &CopyCircuitConfig, offset: usize, enabled: bool) -> Vec<RegionAction<u32>> {
    let mut expected = vec![enable(offset, if enabled { CellValue::One } else { CellValue::Zero })];
    if enabled && offset % 2 == 0 {
        expected.push(RegionAction::EnableSelector { selector: config.q_step, offset });
    }
    expected.extend([
        pad(Label::IsFirst, 0, offset, CellValue::Zero),
        pad(Label::IsLast, 20, offset, CellValue::Zero),
        pad(Label::IdLo, 1, offset, CellValue::Zero),
        pad(Label::IdHi, 2, offset, CellValue::Zero),
        pad(Label::Addr, 3, offset, CellValue::Zero),
        pad(Label::SrcAddrEnd, 4, offset, CellValue::One),
        pad(Label::BytesLeft, 5, offset, CellValue::Zero),
        pad(Label::Value, 21, offset, CellValue::Zero),
        pad(Label::ValueAccRlc, 22, offset, CellValue::Zero),
        pad(Label::RlcAcc, 6, offset, CellValue::Zero),
        pad(Label::IsCode, 24, offset, CellValue::Zero),
        pad(Label::IsPad, 23, offset, CellValue::Zero),
        pad(Label::RwCounter, 7, offset, CellValue::Zero),
        pad(Label::RwcIncLeft, 8, offset, CellValue::Zero),
        RegionAction::AssignTag {
            chip: config.copy_table.tag,
            offset,
            tag: CopyDataType::Padding,
        },
        RegionAction::AssignLt { chip: config.addr_lt_addr_end, offset, lhs: 0, rhs: 1 },
    ]);
    expected
}

#[test]
fn padding_rows_are_steps_only_where_enabled_and_even() {
    let config = config();
    for (start, enabled) in [(4, true), (5, true), (4, false), (5, false)] {
        let mut region = Region::new();
        let mut offset = start;
        config.assign_padding_row(&mut region, &mut offset, enabled);
        assert_eq!(offset, start + 1);
        assert_eq!(region.actions, padding(&config, start, enabled));
    }
}

#[test]
fn a_region_holds_events_then_enabled_then_disabled_padding() {
    let config = config();
    let events = vec![event(0, 1, 1), event(0, 0, 0), event(5, 9, 2)];
    let rows = vec![
        vec![row(CopyDataType::Memory, 0); 2],
        vec![],
        vec![row(CopyDataType::TxCalldata, 50); 4],
    ];
    let mut layouter = Layouter { actions: vec![] };
    config.assign_copy_events(&mut layouter, &events, &rows, 12);
    assert_eq!(layouter.actions.len(), 2);
    assert_eq!(layouter.actions[0], LayouterAction::LoadLt { chip: config.addr_lt_addr_end });

    let mut expected = Region {
        actions: vec![
            RegionAction::NameColumn { column: advice(20), name: "is_last" },
            RegionAction::NameColumn { column: advice(21), name: "value" },
            RegionAction::NameColumn { column: advice(24), name: "is_code" },
            RegionAction::NameColumn { column: advice(23), name: "is_pad" },
        ],
    };
    let mut offset = 0;
    config.assign_copy_event(&mut expected, &mut offset, &events[0], &rows[0]);
    config.assign_copy_event(&mut expected, &mut offset, &events[2], &rows[2]);
    assert_eq!(offset, 6);
    for offset in 6..10 {
        expected.actions.extend(padding(&config, offset, true));
    }
    for offset in 10..12 {
        expected.actions.extend(padding(&config, offset, false));
    }
    let region = LayouterAction::AssignRegion { name: "assign copy table", region: expected };
    assert_eq!(layouter.actions[1], region);
}

#[test]
fn rows_come_in_pairs_for_each_byte() {
    assert_eq!(count_rows(&vec![]), 0);
    assert_eq!(count_rows(&vec![event(0, 0, 3), event(0, 0, 0), event(0, 0, 4)]), 14);
    assert_eq!(UNUSED_ROWS, 2);
    assert_eq!(DISABLED_ROWS, 2);
}

fn block() -> Block<&'static str, u64, Vec<u8>> {
    Block {
        copy_events: vec![event(1, 4, 3), event(2, 2, 2)],
        circuits_params: CircuitsParams {
            max_copy_rows: 50,
            max_txs: 3,
            max_calldata: 256,
            max_rws: 1000,
        },
        txs: vec!["first", "second"],
        rws: 17,
        bytecodes: vec![0x60, 0x00],
    }
}

#[test]
fn circuits_are_made_from_blocks() {
    let circuit = CopyCircuit::new_from_block(&block());
    assert_eq!(circuit.copy_events, block().copy_events);
    assert_eq!(circuit.max_copy_rows, 50);
    assert_eq!(circuit.external_data.max_txs, 3);
    assert_eq!(circuit.external_data.max_calldata, 256);
    assert_eq!(circuit.external_data.txs, vec!["first", "second"]);
    assert_eq!(circuit.external_data.max_rws, 1000);
    assert_eq!(circuit.external_data.rws, 17);
    assert_eq!(circuit.external_data.bytecodes, vec![0x60, 0x00]);

    let circuit = CopyCircuit::new_from_block_no_external(&block());
    assert_eq!(circuit.copy_events, block().copy_events);
    assert_eq!(circuit.max_copy_rows, 50);
    assert_eq!(circuit.external_data.max_txs, 0);
    assert_eq!(circuit.external_data.max_calldata, 0);
    assert_eq!(circuit.external_data.txs, Vec::<&str>::new());
    assert_eq!(circuit.external_data.max_rws, 0);
    assert_eq!(circuit.external_data.rws, 0);
    assert_eq!(circuit.external_data.bytecodes, Vec::<u8>::new());
}

#[test]
fn circuits_are_made_from_events() {
    let circuit = CopyCircuit::<u8, u64, u64>::new(vec![event(1, 2, 1)], 9);
    assert_eq!(circuit.copy_events, vec![event(1, 2, 1)]);
    assert_eq!(circuit.max_copy_rows, 9);
    assert_eq!(circuit.external_data.txs, vec![]);

    let data = ExternalData {
        max_txs: 1,
        max_calldata: 2,
        txs: vec!['t'],
        max_rws: 3,
        rws: 4u64,
        bytecodes: 5u64,
    };
    let circuit = CopyCircuit::new_with_external_data(vec![], 8, data);
    assert_eq!(circuit.copy_events, vec![]);
    assert_eq!(circuit.max_copy_rows, 8);
    assert_eq!(circuit.external_data.txs, vec!['t']);
    assert_eq!(circuit.external_data.bytecodes, 5);

    let circuit = CopyCircuit::<u8, u64, u64>::default();
    assert_eq!(circuit.copy_events, vec![]);
    assert_eq!(circuit.max_copy_rows, 0);
}

#[test]
fn row_counts_of_a_block() {
    assert_eq!(CopyCircuit::min_num_rows_block(&block()), (14, 50));
    assert_eq!(CopyCircuit::<(), (), ()>::unusable_rows(), 6);
    let empty = Block { copy_events: vec![], ..block() };
    assert_eq!(CopyCircuit::min_num_rows_block(&empty), (4, 50));
}
