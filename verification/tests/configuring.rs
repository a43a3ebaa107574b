//! The columns, gates and lookups that the configuration adds.
use copy_circuit::binary_number::{BinaryNumberConfig, CopyDataType};
use copy_circuit::config::{constrain_must_terminate, CopyCircuitConfig, CopyCircuitConfigArgs};
use copy_circuit::constraint_builder::{BaseConstraintBuilder, Word};
use copy_circuit::constraint_system::{Comparison, ConstraintSystem, NamedColumn, Phase};
use copy_circuit::constraint_system::SelectorKind;
use copy_circuit::expression::{and, not, or};
use copy_circuit::expression::{AdviceColumn, AnyColumn, Expression, FixedColumn, Rotation};
use copy_circuit::expression::Selector;
use copy_circuit::table::{BytecodeTable, Challenges, CopyTable, RwTable, TxTable};

/// A prime above every 64-bit number, small enough to multiply its elements in 128 bits by parts.
const P: u128 = (1 << 89) - 1;

fn advice(index: usize) -> AdviceColumn {
    AdviceColumn { index }
}

fn named(from: usize, count: usize, name: &'static str) -> Vec<NamedColumn> {
    (from..from + count)
        .map(|index| NamedColumn { column: AnyColumn::Advice(advice(index)), name })
        .collect()
}

fn args(tx_columns: usize) -> CopyCircuitConfigArgs {
    CopyCircuitConfigArgs {
        tx_table: TxTable { columns: named(50, tx_columns, "tx"), call_data_tag: 9 },
        rw_table: RwTable { columns: named(20, 14, "rw"), memory_target: 2, tx_log_target: 11 },
        bytecode_table: BytecodeTable { columns: named(40, 6, "bytecode"), byte_tag: 1 },
        copy_table: CopyTable {
            is_first: advice(0),
            id: Word { lo: advice(1), hi: advice(2) },
            addr: advice(3),
            src_addr_end: advice(4),
            bytes_left: advice(5),
            rlc_acc: advice(6),
            rw_counter: advice(7),
            rwc_inc_left: advice(8),
            tag: BinaryNumberConfig { bits: [advice(9), advice(10), advice(11)] },
            annotations: named(0, 2, "copy"),
        },
        q_enable: FixedColumn { index: 0 },
        challenges: Challenges { keccak_input: Expression::Challenge(0) },
    }
}

fn configure(tx_columns: usize) -> (ConstraintSystem, CopyCircuitConfig) {
    let mut meta = ConstraintSystem {
        advice_phases: vec![Phase::First; 60],
        selectors: vec![SelectorKind::Simple],
        gates: vec![],
        lookups: vec![],
        comparisons: vec![],
        annotations: vec![],
    };
    let config = CopyCircuitConfig::new(&mut meta, args(tx_columns));
    (meta, config)
}

/// A row that holds `advice[k]` in its `k`-th column.
struct Row {
    advice: Vec<u128>,
    q_enable: u128,
    q_step: bool,
}

fn multiply(a: u128, b: u128) -> u128 {
    let mut product = 0;
    let mut shifted = a % P;
    for bit in 0..89 {
        if b >> bit & 1 == 1 {
            product = (product + shifted) % P;
        }
        shifted = shifted * 2 % P;
    }
    product
}

/// Evaluates an expression in the first of the rows.
fn eval(e: &Expression, rows: &[Row]) -> u128 {
    match e {
        Expression::Constant(value) => *value as u128,
        Expression::Selector(_) => rows[0].q_step as u128,
        Expression::Fixed(_, rotation) => rows[rotation.0 as usize].q_enable,
        Expression::Advice(column, rotation) => rows[rotation.0 as usize].advice[column.index],
        Expression::Challenge(_) => 1_000_003,
        Expression::Negated(inner) => (P - eval(inner, rows)) % P,
        Expression::Sum(left, right) => (eval(left, rows) + eval(right, rows)) % P,
        Expression::Product(left, right) => multiply(eval(left, rows), eval(right, rows)),
    }
}

fn row(tag: CopyDataType, q_step: bool) -> Row {
    let mut advice: Vec<u128> = (0..66).map(|k| 1000 + k).collect();
    for (k, bit) in tag.as_bits().iter().enumerate() {
        advice[9 + k] = *bit as u128;
    }
    Row { advice, q_enable: 1, q_step }
}

fn rotations(e: &Expression, found: &mut Vec<i32>) {
    match e {
        Expression::Fixed(_, rotation) | Expression::Advice(_, rotation) => found.push(rotation.0),
        Expression::Negated(inner) => rotations(inner, found),
        Expression::Sum(left, right) | Expression::Product(left, right) => {
            rotations(left, found);
            rotations(right, found);
        }
        _ => {}
    }
}

#[test]
fn columns_are_added_in_order() {
    let (meta, config) = configure(5);
    assert_eq!(config.q_step, Selector { index: 1 });
    assert_eq!(meta.selectors, vec![SelectorKind::Simple, SelectorKind::Complex]);
    assert_eq!(config.is_last, advice(60));
    assert_eq!(config.value, advice(61));
    assert_eq!(config.value_acc_rlc, advice(62));
    assert_eq!(config.is_code, advice(63));
    assert_eq!(config.is_pad, advice(64));
    assert_eq!(config.addr_lt_addr_end.lt, advice(65));
    assert_eq!(meta.advice_phases.len(), 66);
    for (k, phase) in meta.advice_phases.iter().enumerate() {
        assert_eq!(*phase, if k == 62 { Phase::Second } else { Phase::First });
    }
    assert_eq!(config.q_enable, FixedColumn { index: 0 });
    assert_eq!(config.copy_table, args(5).copy_table);
    assert_eq!(config.tx_table, args(5).tx_table);
    assert_eq!(config.rw_table, args(5).rw_table);
    assert_eq!(config.bytecode_table, args(5).bytecode_table);
}

#[test]
fn table_columns_are_named_table_by_table() {
    let (meta, _) = configure(5);
    let names: Vec<&str> = meta.annotations.iter().map(|a| a.name).collect();
    let mut expected = vec!["tx"; 5];
    expected.extend(vec!["rw"; 14]);
    expected.extend(vec!["bytecode"; 6]);
    expected.extend(vec!["copy"; 2]);
    assert_eq!(names, expected);
}

#[test]
fn read_addresses_are_compared_with_the_end_of_the_source() {
    let (meta, config) = configure(5);
    assert_eq!(
        meta.comparisons,
        vec![Comparison {
            q_enable: Expression::Selector(config.q_step),
            lhs: Expression::Advice(advice(3), Rotation(0)),
            rhs: Expression::Advice(advice(4), Rotation(0)),
            n_bytes: 8,
            lt: advice(65),
        }]
    );
}

#[test]
fn gates_and_constraints_keep_their_names_and_order() {
    let (meta, _) = configure(5);
    let gates: Vec<(&str, usize)> =
        meta.gates.iter().map(|g| (g.name, g.constraints.len())).collect();
    assert_eq!(
        gates,
        vec![
            ("verify row", 14),
            ("Last Step (check value accumulator) Memory => Bytecode or RlcAcc", 1),
            ("verify step (q_step == 1)", 9),
            ("id_hi === 0 when Momory", 1),
            ("id_hi === 0 when TxLog", 1),
            ("id_hi === 0 when TxCalldata", 1),
        ]
    );
    assert_eq!(meta.gates[0].constraints[4].name, "the next step is enabled");
    assert_eq!(meta.gates[0].constraints[5].name, "rows[0].id == rows[2].id");
    assert_eq!(meta.gates[0].constraints[6].name, "rows[0].id == rows[2].id");
    assert_eq!(meta.gates[2].constraints[8].name, "is_pad == 0 for write row");
}

#[test]
fn no_column_is_queried_at_more_than_three_rotations() {
    let (meta, _) = configure(5);
    let mut found = vec![];
    for gate in &meta.gates {
        for constraint in &gate.constraints {
            rotations(&constraint.poly, &mut found);
        }
    }
    for lookup in &meta.lookups {
        for (input, table) in &lookup.entries {
            rotations(input, &mut found);
            rotations(table, &mut found);
        }
    }
    found.sort();
    found.dedup();
    assert_eq!(found, vec![0, 1, 2]);
}

/// What a lookup looks up in a row.
fn looked_up(meta: &ConstraintSystem, index: usize, rows: &[Row]) -> Vec<u128> {
    meta.lookups[index].entries.iter().map(|(input, _)| eval(input, rows)).collect()
}

#[test]
fn lookups_go_to_their_tables() {
    let (meta, _) = configure(5);
    let names: Vec<&str> = meta.lookups.iter().map(|l| l.name).collect();
    assert_eq!(names, vec!["Memory lookup", "TxLog lookup", "Bytecode lookup", "Tx calldata lookup"]);
    for (index, from, count) in [(0, 20, 14), (1, 20, 14), (2, 40, 6), (3, 50, 4)] {
        let entries = &meta.lookups[index].entries;
        assert_eq!(entries.len(), count);
        for (k, (_, table)) in entries.iter().enumerate() {
            assert_eq!(*table, Expression::Advice(advice(from + k), Rotation(0)));
        }
    }
    // The tx table may be narrower or wider than what is looked up in it.
    assert_eq!(configure(3).0.lookups[3].entries.len(), 3);
    assert_eq!(configure(4).0.lookups[3].entries.len(), 4);
}

#[test]
fn memory_rows_look_up_their_access() {
    let (meta, config) = configure(5);
    let mut read = row(CopyDataType::Memory, true);
    read.advice[config.is_pad.index] = 0;
    let expected = vec![1007, 0, 2, 1001, 1003, 0, 0, 0, 1061, 0, 0, 0, 0, 0];
    assert_eq!(looked_up(&meta, 0, &[read]), expected);
    let mut write = row(CopyDataType::Memory, false);
    write.advice[config.is_pad.index] = 0;
    let expected = vec![1007, 1, 2, 1001, 1003, 0, 0, 0, 1061, 0, 0, 0, 0, 0];
    assert_eq!(looked_up(&meta, 0, &[write]), expected);
    let mut padding = row(CopyDataType::Memory, true);
    padding.advice[config.is_pad.index] = 1;
    assert_eq!(looked_up(&meta, 0, &[padding]), vec![0; 14]);
    let mut disabled = row(CopyDataType::Memory, true);
    disabled.advice[config.is_pad.index] = 0;
    disabled.q_enable = 0;
    assert_eq!(looked_up(&meta, 0, &[disabled]), vec![0; 14]);
    let mut other = row(CopyDataType::Bytecode, true);
    other.advice[config.is_pad.index] = 0;
    assert_eq!(looked_up(&meta, 0, &[other]), vec![0; 14]);
}

#[test]
fn log_rows_look_up_their_write() {
    let (meta, config) = configure(5);
    let mut log = row(CopyDataType::TxLog, false);
    log.advice[config.is_pad.index] = 1;
    let expected = vec![1007, 1, 11, 1001, 1003, 0, 0, 0, 1061, 0, 0, 0, 0, 0];
    assert_eq!(looked_up(&meta, 1, &[log]), expected);
    assert_eq!(looked_up(&meta, 1, &[row(CopyDataType::Memory, true)]), vec![0; 14]);
}

#[test]
fn bytecode_and_calldata_rows_look_up_their_byte() {
    let (meta, config) = configure(5);
    let mut code = row(CopyDataType::Bytecode, true);
    code.advice[config.is_pad.index] = 0;
    assert_eq!(looked_up(&meta, 2, &[code]), vec![1001, 1002, 1, 1003, 1063, 1061]);
    let mut calldata = row(CopyDataType::TxCalldata, true);
    calldata.advice[config.is_pad.index] = 0;
    assert_eq!(looked_up(&meta, 3, &[calldata]), vec![1001, 9, 1003, 1061]);
    let mut padding = row(CopyDataType::TxCalldata, true);
    padding.advice[config.is_pad.index] = 1;
    assert_eq!(looked_up(&meta, 3, &[padding]), vec![0; 4]);
}

#[test]
fn a_started_event_needs_the_next_step_enabled() {
    let tag = args(5).copy_table.tag;
    let mut cb = BaseConstraintBuilder::new();
    constrain_must_terminate(&mut cb, FixedColumn { index: 0 }, &tag);
    assert_eq!(cb.constraints.len(), 1);
    assert_eq!(cb.constraints[0].name, "the next step is enabled");
    assert_eq!(cb.condition, None);
    let holds = |tag: CopyDataType, below: u128| {
        let mut last = row(CopyDataType::Padding, false);
        last.q_enable = below;
        let rows = [row(tag, true), row(tag, false), last];
        eval(&cb.constraints[0].poly, &rows) == 0
    };
    assert!(holds(CopyDataType::Padding, 0));
    assert!(holds(CopyDataType::Padding, 1));
    for tag in [
        CopyDataType::Bytecode,
        CopyDataType::Memory,
        CopyDataType::TxCalldata,
        CopyDataType::TxLog,
        CopyDataType::RlcAcc,
    ] {
        assert!(holds(tag, 1));
        assert!(!holds(tag, 0));
    }
}

#[test]
fn tags_compare_equal_to_themselves_alone() {
    let tags = [
        CopyDataType::Padding,
        CopyDataType::Bytecode,
        CopyDataType::Memory,
        CopyDataType::TxCalldata,
        CopyDataType::TxLog,
        CopyDataType::RlcAcc,
    ];
    let config = args(5).copy_table.tag;
    for (code, &held) in tags.iter().enumerate() {
        assert_eq!(held.code(), code as u64);
        let rows = [row(held, true)];
        assert_eq!(eval(&config.value(Rotation::cur()), &rows), code as u128);
        assert_eq!(eval(&config.constant_expr(held), &rows), code as u128);
        for &other in &tags {
            let equal = eval(&config.value_equals(other, Rotation::cur()), &rows);
            assert_eq!(equal, (held == other) as u128);
        }
    }
    assert_eq!(CopyDataType::TxLog.as_bits(), [true, false, false]);
    assert_eq!(CopyDataType::TxCalldata.as_bits(), [false, true, true]);
}

#[test]
fn truth_values_combine() {
    let rows = [row(CopyDataType::Padding, false)];
    for (a, b) in [(0, 0), (0, 1), (1, 0), (1, 1)] {
        let (x, y) = (Expression::constant(a), Expression::constant(b));
        assert_eq!(eval(&and(x.clone(), y.clone()), &rows), (a & b) as u128);
        assert_eq!(eval(&or(x.clone(), y), &rows), (a | b) as u128);
        assert_eq!(eval(&not(x), &rows), 1 - a as u128);
    }
}
