//! The columns of the copy circuit, and what is demanded of them.
use crate::binary_number::{BinaryNumberConfig, CopyDataType};
use crate::constraint_builder::{adds_constraint, BaseConstraintBuilder, Word};
use crate::constraint_system::{
    constraint_states, constraints_within, entries_within, gate_states, lookup_states, Clause,
    Comparison, ConstraintSystem, Gate, Lookup, Phase, SelectorKind,
};
use crate::expression::{and, not, or};
use crate::expression::{AdviceColumn, Expression, FixedColumn, Rotation, Selector};
use crate::field::{field_add, field_mul, field_not, field_or, field_sub, is_truth_value};
use crate::lookup::{
    bytecode_arguments, memory_arguments, tx_calldata_arguments, tx_log_arguments,
    tx_log_condition, unpadded_condition,
};
use crate::table::{
    columns_of, BytecodeTable, Challenges, CopyTable, RwTable, TxTable,
};
use crate::trace::Trace;
use vstd::prelude::*;

verus! {

/// The result of comparing two numbers.
#[derive(Clone, Copy, Debug, PartialEq, Eq)]
pub struct LtConfig {
    pub lt: AdviceColumn,
}

impl LtConfig {
    /// One where the left number is less than the right one.
    pub fn is_lt(&self) -> (e: Expression)
        ensures
            e == Expression::Advice(self.lt, Rotation(0)),
            forall|t: Trace, i: int| #[trigger] e.eval(t, i) == t.advice_at(self.lt, i),
    {
        Expression::query_advice(self.lt, Rotation::cur())
    }
}

/// The columns of the copy circuit.
#[derive(Clone, Debug, PartialEq, Eq)]
pub struct CopyCircuitConfig {
    /// Whether this row denotes a step. A read row is a step and a write row is
    /// not.
    pub q_step: Selector,
    /// Whether the row is the last read-write pair for a copy event.
    pub is_last: AdviceColumn,
    /// The value copied in this copy step.
    pub value: AdviceColumn,
    /// Random linear combination accumulator value.
    pub value_acc_rlc: AdviceColumn,
    /// Whether the row is padding.
    pub is_pad: AdviceColumn,
    /// In case of a bytecode tag, this denotes whether or not the copied byte
    /// is an opcode or push data byte.
    pub is_code: AdviceColumn,
    /// Whether the row is enabled or not.
    pub q_enable: FixedColumn,
    /// The Copy Table contains the columns that are exposed via the lookup
    /// expressions
    pub copy_table: CopyTable,
    /// Lt chip to check: src_addr < src_addr_end.
    /// Since `src_addr` and `src_addr_end` are u64, 8 bytes are sufficient for
    /// the Lt chip.
    pub addr_lt_addr_end: LtConfig,
    // External tables
    /// TxTable
    pub tx_table: TxTable,
    /// RwTable
    pub rw_table: RwTable,
    /// BytecodeTable
    pub bytecode_table: BytecodeTable,
}

/// Circuit configuration arguments
#[derive(Debug, PartialEq, Eq)]
pub struct CopyCircuitConfigArgs {
    /// TxTable
    pub tx_table: TxTable,
    /// RwTable
    pub rw_table: RwTable,
    /// BytecodeTable
    pub bytecode_table: BytecodeTable,
    /// CopyTable
    pub copy_table: CopyTable,
    /// q_enable
    pub q_enable: FixedColumn,
    /// Challenges
    pub challenges: Challenges<Expression>,
}

/// What the columns hold at a row.
impl CopyCircuitConfig {
    pub open spec fn enabled(self, t: Trace, i: int) -> bool {
        t.fixed_at(self.q_enable, i) != 0
    }

    pub open spec fn is_step(self, t: Trace, i: int) -> bool {
        t.selected(self.q_step, i)
    }

    pub open spec fn first_at(self, t: Trace, i: int) -> int {
        t.advice_at(self.copy_table.is_first, i)
    }

    pub open spec fn last_at(self, t: Trace, i: int) -> int {
        t.advice_at(self.is_last, i)
    }

    pub open spec fn value_at(self, t: Trace, i: int) -> int {
        t.advice_at(self.value, i)
    }

    pub open spec fn acc_at(self, t: Trace, i: int) -> int {
        t.advice_at(self.value_acc_rlc, i)
    }

    pub open spec fn pad_at(self, t: Trace, i: int) -> int {
        t.advice_at(self.is_pad, i)
    }

    pub open spec fn code_at(self, t: Trace, i: int) -> int {
        t.advice_at(self.is_code, i)
    }

    pub open spec fn id_lo_at(self, t: Trace, i: int) -> int {
        t.advice_at(self.copy_table.id.lo, i)
    }

    pub open spec fn id_hi_at(self, t: Trace, i: int) -> int {
        t.advice_at(self.copy_table.id.hi, i)
    }

    pub open spec fn addr_at(self, t: Trace, i: int) -> int {
        t.advice_at(self.copy_table.addr, i)
    }

    pub open spec fn src_addr_end_at(self, t: Trace, i: int) -> int {
        t.advice_at(self.copy_table.src_addr_end, i)
    }

    pub open spec fn bytes_left_at(self, t: Trace, i: int) -> int {
        t.advice_at(self.copy_table.bytes_left, i)
    }

    pub open spec fn rlc_acc_at(self, t: Trace, i: int) -> int {
        t.advice_at(self.copy_table.rlc_acc, i)
    }

    pub open spec fn rw_counter_at(self, t: Trace, i: int) -> int {
        t.advice_at(self.copy_table.rw_counter, i)
    }

    pub open spec fn rwc_inc_left_at(self, t: Trace, i: int) -> int {
        t.advice_at(self.copy_table.rwc_inc_left, i)
    }

    pub open spec fn lt_at(self, t: Trace, i: int) -> int {
        t.advice_at(self.addr_lt_addr_end.lt, i)
    }

    /// The number of the row's tag.
    pub open spec fn tag_at(self, t: Trace, i: int) -> int {
        self.copy_table.tag.value_at(t, i)
    }

    /// One if the row's tag is `tag`, and zero if it is another one.
    pub open spec fn tag_is(self, t: Trace, i: int, tag: CopyDataType) -> int {
        self.copy_table.tag.equals_at(t, i, tag)
    }

    /// By how much the row moves the counter of memory and log accesses.
    pub open spec fn rw_diff_at(self, t: Trace, i: int) -> int {
        field_mul(
            t.modulus,
            field_or(
                t.modulus,
                self.tag_is(t, i, CopyDataType::Memory),
                self.tag_is(t, i, CopyDataType::TxLog),
            ),
            field_not(t.modulus, self.pad_at(t, i)),
        )
    }

    /// Whether the row two below continues the row's copy event.
    pub open spec fn continues(self, t: Trace, i: int) -> bool {
        &&& field_not(t.modulus, self.last_at(t, i)) != self.last_at(t, i + 1)
        &&& self.tag_is(t, i, CopyDataType::Padding) != 1
    }
}

/// What "verify row" demands of each enabled row.
pub open spec fn verify_row_clauses(c: CopyCircuitConfig) -> Seq<Clause> {
    seq![
        Clause {
            name: "is_first is boolean"@,
            demand: |t: Trace, i: int| c.enabled(t, i) ==> is_truth_value(c.first_at(t, i)),
        },
        Clause {
            name: "is_last is boolean"@,
            demand: |t: Trace, i: int| c.enabled(t, i) ==> is_truth_value(c.last_at(t, i)),
        },
        Clause {
            name: "is_first == 0 when q_step == 0"@,
            demand: |t: Trace, i: int|
                c.enabled(t, i) && !c.is_step(t, i) ==> c.first_at(t, i) == 0,
        },
        Clause {
            name: "is_last == 0 when q_step == 1"@,
            demand: |t: Trace, i: int| c.enabled(t, i) && c.is_step(t, i) ==> c.last_at(t, i) == 0,
        },
        Clause {
            name: "the next step is enabled"@,
            demand: |t: Trace, i: int|
                c.enabled(t, i) && c.tag_at(t, i) != CopyDataType::Padding.spec_code()
                    ==> t.fixed_at(c.q_enable, i + 2) == 1,
        },
        Clause {
            name: "rows[0].id == rows[2].id"@,
            demand: |t: Trace, i: int|
                c.enabled(t, i) && c.continues(t, i) ==> c.id_lo_at(t, i) == c.id_lo_at(t, i + 2),
        },
        Clause {
            name: "rows[0].id == rows[2].id"@,
            demand: |t: Trace, i: int|
                c.enabled(t, i) && c.continues(t, i) ==> c.id_hi_at(t, i) == c.id_hi_at(t, i + 2),
        },
        Clause {
            name: "rows[0].tag == rows[2].tag"@,
            demand: |t: Trace, i: int|
                c.enabled(t, i) && c.continues(t, i) ==> c.tag_at(t, i) == c.tag_at(t, i + 2),
        },
        Clause {
            name: "rows[0].addr + 1 == rows[2].addr"@,
            demand: |t: Trace, i: int|
                c.enabled(t, i) && c.continues(t, i) ==> field_add(t.modulus, c.addr_at(t, i), 1)
                    == c.addr_at(t, i + 2),
        },
        Clause {
            name: "rows[0].src_addr_end == rows[2].src_addr_end for non-last step"@,
            demand: |t: Trace, i: int|
                c.enabled(t, i) && c.continues(t, i) ==> c.src_addr_end_at(t, i)
                    == c.src_addr_end_at(t, i + 2),
        },
        Clause {
            name: "rows[0].rw_counter + rw_diff == rows[1].rw_counter"@,
            demand: |t: Trace, i: int|
                c.enabled(t, i) && c.last_at(t, i) != 1 ==> field_add(
                    t.modulus,
                    c.rw_counter_at(t, i),
                    c.rw_diff_at(t, i),
                ) == c.rw_counter_at(t, i + 1),
        },
        Clause {
            name: "rows[0].rwc_inc_left - rw_diff == rows[1].rwc_inc_left"@,
            demand: |t: Trace, i: int|
                c.enabled(t, i) && c.last_at(t, i) != 1 ==> field_sub(
                    t.modulus,
                    c.rwc_inc_left_at(t, i),
                    c.rw_diff_at(t, i),
                ) == c.rwc_inc_left_at(t, i + 1),
        },
        Clause {
            name: "rows[0].rlc_acc == rows[1].rlc_acc"@,
            demand: |t: Trace, i: int|
                c.enabled(t, i) && c.last_at(t, i) != 1 ==> c.rlc_acc_at(t, i) == c.rlc_acc_at(
                    t,
                    i + 1,
                ),
        },
        Clause {
            name: "rwc_inc_left == rw_diff for last row in the copy slot"@,
            demand: |t: Trace, i: int|
                c.enabled(t, i) && c.last_at(t, i) != 0 ==> c.rwc_inc_left_at(t, i)
                    == c.rw_diff_at(t, i),
        },
    ]
}

/// What is demanded of the last step of a copy to a bytecode or an accumulator.
pub open spec fn last_step_clauses(c: CopyCircuitConfig) -> Seq<Clause> {
    seq![
        Clause {
            name: "value_acc_rlc == rlc_acc on the last row"@,
            demand: |t: Trace, i: int|
                c.enabled(t, i) && c.last_at(t, i + 1) != 0 && field_add(
                    t.modulus,
                    field_mul(
                        t.modulus,
                        c.tag_is(t, i, CopyDataType::Memory),
                        c.tag_is(t, i + 1, CopyDataType::Bytecode),
                    ),
                    c.tag_is(t, i + 1, CopyDataType::RlcAcc),
                ) != 0 ==> c.acc_at(t, i + 1) == c.rlc_acc_at(t, i + 1),
        },
    ]
}

/// What "verify step" demands of each read row and the write row below it.
pub open spec fn verify_step_clauses(c: CopyCircuitConfig, r: Expression) -> Seq<Clause> {
    seq![
        Clause {
            name: "bytes_left == 1 for last step"@,
            demand: |t: Trace, i: int|
                c.is_step(t, i) && c.last_at(t, i + 1) != 0 ==> c.bytes_left_at(t, i) == 1,
        },
        Clause {
            name: "bytes_left == bytes_left_next + 1 for non-last step"@,
            demand: |t: Trace, i: int|
                c.is_step(t, i) && c.last_at(t, i + 1) != 1 && c.tag_is(
                    t,
                    i,
                    CopyDataType::Padding,
                ) != 1 ==> c.bytes_left_at(t, i) == field_add(
                    t.modulus,
                    c.bytes_left_at(t, i + 2),
                    1,
                ),
        },
        Clause {
            name: "value == value_acc_rlc at every first copy event"@,
            demand: |t: Trace, i: int|
                c.is_step(t, i) && c.first_at(t, i) != 0 ==> c.value_at(t, i) == c.acc_at(t, i),
        },
        Clause {
            name: "write value == read value"@,
            demand: |t: Trace, i: int|
                c.is_step(t, i) ==> c.value_at(t, i) == c.value_at(t, i + 1),
        },
        Clause {
            name: "value_acc_rlc is same for read-write rows"@,
            demand: |t: Trace, i: int| c.is_step(t, i) ==> c.acc_at(t, i) == c.acc_at(t, i + 1),
        },
        Clause {
            name: "value_acc_rlc(2) == value_acc_rlc(0) * r + value(2)"@,
            demand: |t: Trace, i: int|
                c.is_step(t, i) && c.last_at(t, i + 1) != 1 && c.pad_at(t, i) != 1 ==> c.acc_at(
                    t,
                    i + 2,
                ) == field_add(
                    t.modulus,
                    field_mul(t.modulus, c.acc_at(t, i), r.eval(t, i)),
                    c.value_at(t, i + 2),
                ),
        },
        Clause {
            name: "value == 0 when is_pad == 1 for read"@,
            demand: |t: Trace, i: int|
                c.is_step(t, i) && c.pad_at(t, i) != 0 ==> c.value_at(t, i) == 0,
        },
        Clause {
            name: "is_pad == 1 - (src_addr < src_addr_end) for read row"@,
            demand: |t: Trace, i: int|
                c.is_step(t, i) ==> field_not(t.modulus, c.lt_at(t, i)) == c.pad_at(t, i),
        },
        Clause {
            name: "is_pad == 0 for write row"@,
            demand: |t: Trace, i: int| c.is_step(t, i) ==> c.pad_at(t, i + 1) == 0,
        },
    ]
}

/// What is demanded of rows with `tag`: their identifier is a number of one limb.
pub open spec fn id_hi_clauses(c: CopyCircuitConfig, tag: CopyDataType) -> Seq<Clause> {
    seq![
        Clause {
            name: "id_hi === 0"@,
            demand: |t: Trace, i: int|
                c.enabled(t, i) && c.tag_is(t, i, tag) != 0 && c.pad_at(t, i) != 1 ==> c.id_hi_at(
                    t,
                    i,
                ) == 0,
        },
    ]
}

/// Verify that is_last goes to 1 at some point.
pub fn constrain_must_terminate(
    cb: &mut BaseConstraintBuilder,
    q_enable: FixedColumn,
    tag: &BinaryNumberConfig,
)
    requires
        old(cb).condition is None,
    ensures
        final(cb).condition is None,
        adds_constraint(
            old(cb).constraints@,
            final(cb).constraints@,
            "the next step is enabled"@,
            |t: Trace, i: int|
                tag.value_at(t, i) != CopyDataType::Padding.spec_code() ==> t.fixed_at(
                    q_enable,
                    i + 2,
                ) == 1,
        ),
        forall|low: int, high: int|
            low <= 0 && 2 <= high && constraints_within(old(cb).constraints@, low, high)
                ==> #[trigger] constraints_within(final(cb).constraints@, low, high),
{
    // If an event has started (tag != Padding on reader and writer rows), require q_enable=1 at the
    // next step. This prevents querying rows where constraints are disabled.
    //
    // The tag is then copied to the next step by "rows[0].tag == rows[2].tag". Eventually,
    // q_enable=0. By that point the tag must have switched to Padding, which is only possible with
    // is_last=1. This guarantees that all the final conditions are checked.
    let is_event = tag.value(Rotation::cur()).minus(tag.constant_expr(CopyDataType::Padding));
    cb.begin_condition(is_event);
    cb.require_equal(
        "the next step is enabled",
        Expression::query_fixed(q_enable, Rotation(2)),
        Expression::constant(1),
    );
    cb.end_condition();
}

impl CopyCircuitConfig {
    /// Constrains every enabled row.
    fn verify_row_gate(&self) -> (gate: Gate)
        ensures
            gate_states(gate, "verify row"@, verify_row_clauses(*self)),
            constraints_within(gate.constraints@, 0, 2),
    {
        let table = &self.copy_table;
        let tag = &table.tag;
        let mut cb = BaseConstraintBuilder::new();
        cb.require_boolean(
            "is_first is boolean",
            Expression::query_advice(table.is_first, Rotation::cur()),
        );
        cb.require_boolean(
            "is_last is boolean",
            Expression::query_advice(self.is_last, Rotation::cur()),
        );
        cb.require_zero(
            "is_first == 0 when q_step == 0",
            and(
                not(Expression::query_selector(self.q_step)),
                Expression::query_advice(table.is_first, Rotation::cur()),
            ),
        );
        cb.require_zero(
            "is_last == 0 when q_step == 1",
            and(
                Expression::query_advice(self.is_last, Rotation::cur()),
                Expression::query_selector(self.q_step),
            ),
        );

        constrain_must_terminate(&mut cb, self.q_enable, tag);

        let not_last_two_rows = Expression::constant(1).minus(
            Expression::query_advice(self.is_last, Rotation::cur()),
        ).minus(Expression::query_advice(self.is_last, Rotation::next()));
        cb.begin_condition(
            not_last_two_rows.times(not(tag.value_equals(CopyDataType::Padding, Rotation::cur()))),
        );
        cb.require_equal_word(
            "rows[0].id == rows[2].id",
            Word {
                lo: Expression::query_advice(table.id.lo, Rotation::cur()),
                hi: Expression::query_advice(table.id.hi, Rotation::cur()),
            },
            Word {
                lo: Expression::query_advice(table.id.lo, Rotation(2)),
                hi: Expression::query_advice(table.id.hi, Rotation(2)),
            },
        );
        cb.require_equal(
            "rows[0].tag == rows[2].tag",
            tag.value(Rotation::cur()),
            tag.value(Rotation(2)),
        );
        cb.require_equal(
            "rows[0].addr + 1 == rows[2].addr",
            Expression::query_advice(table.addr, Rotation::cur()).plus(Expression::constant(1)),
            Expression::query_advice(table.addr, Rotation(2)),
        );
        cb.require_equal(
            "rows[0].src_addr_end == rows[2].src_addr_end for non-last step",
            Expression::query_advice(table.src_addr_end, Rotation::cur()),
            Expression::query_advice(table.src_addr_end, Rotation(2)),
        );
        cb.end_condition();

        let rw_diff = and(
            or(
                tag.value_equals(CopyDataType::Memory, Rotation::cur()),
                tag.value_equals(CopyDataType::TxLog, Rotation::cur()),
            ),
            not(Expression::query_advice(self.is_pad, Rotation::cur())),
        );
        cb.begin_condition(not(Expression::query_advice(self.is_last, Rotation::cur())));
        cb.require_equal(
            "rows[0].rw_counter + rw_diff == rows[1].rw_counter",
            Expression::query_advice(table.rw_counter, Rotation::cur()).plus(rw_diff.clone()),
            Expression::query_advice(table.rw_counter, Rotation::next()),
        );
        cb.require_equal(
            "rows[0].rwc_inc_left - rw_diff == rows[1].rwc_inc_left",
            Expression::query_advice(table.rwc_inc_left, Rotation::cur()).minus(rw_diff.clone()),
            Expression::query_advice(table.rwc_inc_left, Rotation::next()),
        );
        cb.require_equal(
            "rows[0].rlc_acc == rows[1].rlc_acc",
            Expression::query_advice(table.rlc_acc, Rotation::cur()),
            Expression::query_advice(table.rlc_acc, Rotation::next()),
        );
        cb.end_condition();
        cb.begin_condition(Expression::query_advice(self.is_last, Rotation::cur()));
        cb.require_equal(
            "rwc_inc_left == rw_diff for last row in the copy slot",
            Expression::query_advice(table.rwc_inc_left, Rotation::cur()),
            rw_diff,
        );
        cb.end_condition();

        let gate = cb.gate("verify row", Expression::query_fixed(self.q_enable, Rotation::cur()));
        let ghost clauses = verify_row_clauses(*self);
        let ghost gcs = gate.constraints@;
        assert(constraint_states(gcs[0], clauses[0]));
        assert(constraint_states(gcs[1], clauses[1]));
        assert(constraint_states(gcs[2], clauses[2]));
        assert(constraint_states(gcs[3], clauses[3]));
        assert(constraint_states(gcs[4], clauses[4]));
        assert(constraint_states(gcs[5], clauses[5]));
        assert(constraint_states(gcs[6], clauses[6]));
        assert(constraint_states(gcs[7], clauses[7]));
        assert(constraint_states(gcs[8], clauses[8]));
        assert(constraint_states(gcs[9], clauses[9]));
        assert(constraint_states(gcs[10], clauses[10]));
        assert(constraint_states(gcs[11], clauses[11]));
        assert(constraint_states(gcs[12], clauses[12]));
        assert(constraint_states(gcs[13], clauses[13]));
        gate
    }

    /// Ties the accumulated value of the last step to the table.
    fn last_step_gate(&self) -> (gate: Gate)
        ensures
            gate_states(
                gate,
                "Last Step (check value accumulator) Memory => Bytecode or RlcAcc"@,
                last_step_clauses(*self),
            ),
            constraints_within(gate.constraints@, 0, 2),
    {
        let tag = &self.copy_table.tag;
        let mut cb = BaseConstraintBuilder::new();
        cb.require_equal(
            "value_acc_rlc == rlc_acc on the last row",
            Expression::query_advice(self.value_acc_rlc, Rotation::next()),
            Expression::query_advice(self.copy_table.rlc_acc, Rotation::next()),
        );
        // To build a selector expression just having 0 when false and != 0 when true
        // is enough, so we could replace the `or` by a `+`. This
        // would give 2 when both expressions are true
        // but it's fine.
        let accumulates = and(
            tag.value_equals(CopyDataType::Memory, Rotation::cur()),
            tag.value_equals(CopyDataType::Bytecode, Rotation::next()),
        ).plus(tag.value_equals(CopyDataType::RlcAcc, Rotation::next()));
        let gate = cb.gate(
            "Last Step (check value accumulator) Memory => Bytecode or RlcAcc",
            and(
                and(
                    Expression::query_fixed(self.q_enable, Rotation::cur()),
                    Expression::query_advice(self.is_last, Rotation::next()),
                ),
                accumulates,
            ),
        );
        assert(constraint_states(gate.constraints@[0], last_step_clauses(*self)[0]));
        gate
    }

    /// Constrains every read row and the write row below it.
    fn verify_step_gate(&self, challenges: &Challenges<Expression>) -> (gate: Gate)
        ensures
            gate_states(
                gate,
                "verify step (q_step == 1)"@,
                verify_step_clauses(*self, challenges.keccak_input),
            ),
            challenges.keccak_input.rotations_within(0, 2) ==> constraints_within(
                gate.constraints@,
                0,
                2,
            ),
    {
        let table = &self.copy_table;
        let tag = &table.tag;
        let mut cb = BaseConstraintBuilder::new();
        cb.require_zero(
            "bytes_left == 1 for last step",
            and(
                Expression::query_advice(self.is_last, Rotation::next()),
                Expression::constant(1).minus(
                    Expression::query_advice(table.bytes_left, Rotation::cur()),
                ),
            ),
        );
        cb.begin_condition(
            not(
                or(
                    Expression::query_advice(self.is_last, Rotation::next()),
                    tag.value_equals(CopyDataType::Padding, Rotation::cur()),
                ),
            ),
        );
        cb.require_equal(
            "bytes_left == bytes_left_next + 1 for non-last step",
            Expression::query_advice(table.bytes_left, Rotation::cur()),
            Expression::query_advice(table.bytes_left, Rotation(2)).plus(Expression::constant(1)),
        );
        cb.end_condition();
        cb.begin_condition(Expression::query_advice(table.is_first, Rotation::cur()));
        cb.require_equal(
            "value == value_acc_rlc at every first copy event",
            Expression::query_advice(self.value, Rotation::cur()),
            Expression::query_advice(self.value_acc_rlc, Rotation::cur()),
        );
        cb.end_condition();
        cb.require_equal(
            "write value == read value",
            Expression::query_advice(self.value, Rotation::cur()),
            Expression::query_advice(self.value, Rotation::next()),
        );
        cb.require_equal(
            "value_acc_rlc is same for read-write rows",
            Expression::query_advice(self.value_acc_rlc, Rotation::cur()),
            Expression::query_advice(self.value_acc_rlc, Rotation::next()),
        );
        cb.begin_condition(
            and(
                not(Expression::query_advice(self.is_last, Rotation::next())),
                not(Expression::query_advice(self.is_pad, Rotation::cur())),
            ),
        );
        cb.require_equal(
            "value_acc_rlc(2) == value_acc_rlc(0) * r + value(2)",
            Expression::query_advice(self.value_acc_rlc, Rotation(2)),
            Expression::query_advice(self.value_acc_rlc, Rotation::cur()).times(
                challenges.keccak_input(),
            ).plus(Expression::query_advice(self.value, Rotation(2))),
        );
        cb.end_condition();
        cb.require_zero(
            "value == 0 when is_pad == 1 for read",
            and(
                Expression::query_advice(self.is_pad, Rotation::cur()),
                Expression::query_advice(self.value, Rotation::cur()),
            ),
        );
        cb.require_equal(
            "is_pad == 1 - (src_addr < src_addr_end) for read row",
            Expression::constant(1).minus(self.addr_lt_addr_end.is_lt()),
            Expression::query_advice(self.is_pad, Rotation::cur()),
        );
        cb.require_zero(
            "is_pad == 0 for write row",
            Expression::query_advice(self.is_pad, Rotation::next()),
        );

        let gate = cb.gate("verify step (q_step == 1)", Expression::query_selector(self.q_step));
        let ghost clauses = verify_step_clauses(*self, challenges.keccak_input);
        let ghost gcs = gate.constraints@;
        assert(constraint_states(gcs[0], clauses[0]));
        assert(constraint_states(gcs[1], clauses[1]));
        assert(constraint_states(gcs[2], clauses[2]));
        assert(constraint_states(gcs[3], clauses[3]));
        assert(constraint_states(gcs[4], clauses[4]));
        assert(constraint_states(gcs[5], clauses[5]));
        assert(constraint_states(gcs[6], clauses[6]));
        assert(constraint_states(gcs[7], clauses[7]));
        assert(constraint_states(gcs[8], clauses[8]));
        gate
    }

    /// Keeps the identifier of rows with `tag` to one limb.
    fn id_hi_gate(&self, name: &'static str, tag: CopyDataType) -> (gate: Gate)
        ensures
            gate_states(gate, name@, id_hi_clauses(*self, tag)),
            constraints_within(gate.constraints@, 0, 2),
    {
        let mut cb = BaseConstraintBuilder::new();
        cb.begin_condition(
            self.copy_table.tag.value_equals(tag, Rotation::cur()).times(
                not(Expression::query_advice(self.is_pad, Rotation::cur())),
            ),
        );
        cb.require_zero(
            "id_hi === 0",
            Expression::query_advice(self.copy_table.id.hi, Rotation::cur()),
        );
        cb.end_condition();
        let gate = cb.gate(name, Expression::query_fixed(self.q_enable, Rotation::cur()));
        assert(constraint_states(gate.constraints@[0], id_hi_clauses(*self, tag)[0]));
        gate
    }

    /// The comparison of a read row's address with the end of the source.
    pub open spec fn comparison(self) -> Comparison {
        Comparison {
            q_enable: Expression::Selector(self.q_step),
            lhs: Expression::Advice(self.copy_table.addr, Rotation(0)),
            rhs: Expression::Advice(self.copy_table.src_addr_end, Rotation(0)),
            n_bytes: 8,
            lt: self.addr_lt_addr_end.lt,
        }
    }

    /// The columns that the circuit adds, in the order in which it adds them.
    pub open spec fn added_columns(self) -> Seq<AdviceColumn> {
        seq![
            self.is_last,
            self.value,
            self.value_acc_rlc,
            self.is_code,
            self.is_pad,
            self.addr_lt_addr_end.lt,
        ]
    }

    /// Whether the six gates say what the copy circuit demands.
    pub open spec fn gates_state(self, r: Expression, gates: Seq<Gate>) -> bool {
        &&& gates.len() == 6
        &&& gate_states(gates[0], "verify row"@, verify_row_clauses(self))
        &&& gate_states(
            gates[1],
            "Last Step (check value accumulator) Memory => Bytecode or RlcAcc"@,
            last_step_clauses(self),
        )
        &&& gate_states(gates[2], "verify step (q_step == 1)"@, verify_step_clauses(self, r))
        &&& gate_states(
            gates[3],
            "id_hi === 0 when Momory"@,
            id_hi_clauses(self, CopyDataType::Memory),
        )
        &&& gate_states(
            gates[4],
            "id_hi === 0 when TxLog"@,
            id_hi_clauses(self, CopyDataType::TxLog),
        )
        &&& gate_states(
            gates[5],
            "id_hi === 0 when TxCalldata"@,
            id_hi_clauses(self, CopyDataType::TxCalldata),
        )
    }

    /// Whether the four lookups say what the copy circuit looks up.
    pub open spec fn lookups_state(self, lookups: Seq<Lookup>) -> bool {
        &&& lookups.len() == 4
        &&& lookup_states(
            lookups[0],
            "Memory lookup"@,
            unpadded_condition(self, CopyDataType::Memory),
            memory_arguments(self),
            columns_of(self.rw_table.columns@),
        )
        &&& lookup_states(
            lookups[1],
            "TxLog lookup"@,
            tx_log_condition(self),
            tx_log_arguments(self),
            columns_of(self.rw_table.columns@),
        )
        &&& lookup_states(
            lookups[2],
            "Bytecode lookup"@,
            unpadded_condition(self, CopyDataType::Bytecode),
            bytecode_arguments(self),
            columns_of(self.bytecode_table.columns@),
        )
        &&& lookup_states(
            lookups[3],
            "Tx calldata lookup"@,
            unpadded_condition(self, CopyDataType::TxCalldata),
            tx_calldata_arguments(self),
            columns_of(self.tx_table.columns@),
        )
    }

    /// Configure the Copy Circuit constraining read-write steps and doing
    /// appropriate lookups to the Tx Table, RW Table and Bytecode Table.
    pub fn new(meta: &mut ConstraintSystem, args: CopyCircuitConfigArgs) -> (config: Self)
        requires
            args.rw_table.columns@.len() == 14,
            args.bytecode_table.columns@.len() == 6,
        ensures
            config.tx_table == args.tx_table,
            config.rw_table == args.rw_table,
            config.bytecode_table == args.bytecode_table,
            config.copy_table == args.copy_table,
            config.q_enable == args.q_enable,
            config.q_step.index == old(meta).selectors@.len(),
            final(meta).selectors@ == old(meta).selectors@.push(SelectorKind::Complex),
            forall|k: int|
                0 <= k < 6 ==> (#[trigger] config.added_columns()[k]).index == old(
                    meta,
                ).advice_phases@.len() + k,
            final(meta).advice_phases@ == old(meta).advice_phases@ + seq![
                Phase::First,
                Phase::First,
                Phase::Second,
                Phase::First,
                Phase::First,
                Phase::First,
            ],
            final(meta).annotations@ == old(meta).annotations@ + args.tx_table.columns@
                + args.rw_table.columns@ + args.bytecode_table.columns@
                + args.copy_table.annotations@,
            final(meta).comparisons@ == old(meta).comparisons@.push(config.comparison()),
            old(meta).gates@.is_prefix_of(final(meta).gates@),
            config.gates_state(
                args.challenges.keccak_input,
                final(meta).gates@.skip(old(meta).gates@.len() as int),
            ),
            old(meta).lookups@.is_prefix_of(final(meta).lookups@),
            config.lookups_state(final(meta).lookups@.skip(old(meta).lookups@.len() as int)),
            // No column queried at more than 3 distinct rotations.
            args.challenges.keccak_input.rotations_within(0, 2) ==> forall|k: int|
                old(meta).gates@.len() <= k < final(meta).gates@.len() ==> constraints_within(
                    (#[trigger] final(meta).gates@[k]).constraints@,
                    0,
                    2,
                ),
            forall|k: int|
                old(meta).lookups@.len() <= k < final(meta).lookups@.len() ==> entries_within(
                    (#[trigger] final(meta).lookups@[k]).entries@,
                    0,
                    2,
                ),
    {
        let q_step = meta.complex_selector();
        let is_last = meta.advice_column();
        let value = meta.advice_column();
        let value_acc_rlc = meta.advice_column_in(Phase::Second);
        let is_code = meta.advice_column();
        let is_pad = meta.advice_column();
        let CopyCircuitConfigArgs {
            tx_table,
            rw_table,
            bytecode_table,
            copy_table,
            q_enable,
            challenges,
        } = args;

        // annotate table columns
        meta.annotate_columns(&tx_table.columns);
        meta.annotate_columns(&rw_table.columns);
        meta.annotate_columns(&bytecode_table.columns);
        meta.annotate_columns(&copy_table.annotations);

        let addr_lt_addr_end = LtConfig { lt: meta.advice_column() };
        meta.compare(
            Comparison {
                q_enable: Expression::query_selector(q_step),
                lhs: Expression::query_advice(copy_table.addr, Rotation::cur()),
                rhs: Expression::query_advice(copy_table.src_addr_end, Rotation::cur()),
                n_bytes: 8,
                lt: addr_lt_addr_end.lt,
            },
        );

        let config = CopyCircuitConfig {
            q_step,
            is_last,
            value,
            value_acc_rlc,
            is_pad,
            is_code,
            q_enable,
            copy_table,
            addr_lt_addr_end,
            tx_table,
            rw_table,
            bytecode_table,
        };

        meta.create_gate(config.verify_row_gate());
        meta.create_gate(config.last_step_gate());
        meta.create_gate(config.verify_step_gate(&challenges));

        meta.lookup_any(config.memory_lookup());
        meta.lookup_any(config.tx_log_lookup());
        meta.lookup_any(config.bytecode_lookup());
        meta.lookup_any(config.tx_calldata_lookup());

        meta.create_gate(config.id_hi_gate("id_hi === 0 when Momory", CopyDataType::Memory));
        meta.create_gate(config.id_hi_gate("id_hi === 0 when TxLog", CopyDataType::TxLog));
        meta.create_gate(
            config.id_hi_gate("id_hi === 0 when TxCalldata", CopyDataType::TxCalldata),
        );

        config
    }
}

} // verus!
