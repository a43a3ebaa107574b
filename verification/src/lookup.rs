//! The lookups of the copy circuit: what each row finds in the tables of other circuits.
use crate::binary_number::CopyDataType;
use crate::config::CopyCircuitConfig;
use crate::constraint_system::{entries_within, lookup_states, Lookup, NamedColumn};
use crate::expression::{any_query, not, Expression, Rotation};
use crate::field::{field_mul, field_not};
use crate::pairing::zip_eq;
use crate::table::{columns_of, table_exprs};
use crate::trace::Trace;
use vstd::arithmetic::div_mod::*;
use vstd::prelude::*;

verus! {

/// What a lookup for rows with `tag` is scaled by: zero in rows that are disabled, padding or of
/// another tag.
pub open spec fn unpadded_condition(
    c: CopyCircuitConfig,
    tag: CopyDataType,
) -> spec_fn(Trace, int) -> int {
    |t: Trace, i: int|
        field_mul(
            t.modulus,
            field_mul(t.modulus, t.fixed_at(c.q_enable, i), c.tag_is(t, i, tag)),
            field_not(t.modulus, c.pad_at(t, i)),
        )
}

/// What the lookup for rows of a log is scaled by: zero in rows that are disabled or of another
/// tag.
pub open spec fn tx_log_condition(c: CopyCircuitConfig) -> spec_fn(Trace, int) -> int {
    |t: Trace, i: int|
        field_mul(t.modulus, t.fixed_at(c.q_enable, i), c.tag_is(t, i, CopyDataType::TxLog))
}

/// A memory access: its counter, whether it is a write, its target, the call, the address and
/// the byte.
pub open spec fn memory_arguments(c: CopyCircuitConfig) -> Seq<spec_fn(Trace, int) -> int> {
    seq![
        |t: Trace, i: int| c.rw_counter_at(t, i),
        |t: Trace, i: int|
            if c.is_step(t, i) {
                0int
            } else {
                1int
            },
        |t: Trace, i: int| c.rw_table.memory_target as int,
        |t: Trace, i: int| c.id_lo_at(t, i),
        |t: Trace, i: int| c.addr_at(t, i),
        |t: Trace, i: int| 0int,
        |t: Trace, i: int| 0int,
        |t: Trace, i: int| 0int,
        |t: Trace, i: int| c.value_at(t, i),
        |t: Trace, i: int| 0int,
        |t: Trace, i: int| 0int,
        |t: Trace, i: int| 0int,
        |t: Trace, i: int| 0int,
        |t: Trace, i: int| 0int,
    ]
}

/// A write to a log: its counter, that it is a write, its target, the transaction, the address
/// and the byte.
pub open spec fn tx_log_arguments(c: CopyCircuitConfig) -> Seq<spec_fn(Trace, int) -> int> {
    seq![
        |t: Trace, i: int| c.rw_counter_at(t, i),
        |t: Trace, i: int| 1int,
        |t: Trace, i: int| c.rw_table.tx_log_target as int,
        |t: Trace, i: int| c.id_lo_at(t, i),
        |t: Trace, i: int| c.addr_at(t, i),
        |t: Trace, i: int| 0int,
        |t: Trace, i: int| 0int,
        |t: Trace, i: int| 0int,
        |t: Trace, i: int| c.value_at(t, i),
        |t: Trace, i: int| 0int,
        |t: Trace, i: int| 0int,
        |t: Trace, i: int| 0int,
        |t: Trace, i: int| 0int,
        |t: Trace, i: int| 0int,
    ]
}

/// A byte of code: the code's hash, the mark of a byte, its index, whether it is an opcode, and
/// the byte.
pub open spec fn bytecode_arguments(c: CopyCircuitConfig) -> Seq<spec_fn(Trace, int) -> int> {
    seq![
        |t: Trace, i: int| c.id_lo_at(t, i),
        |t: Trace, i: int| c.id_hi_at(t, i),
        |t: Trace, i: int| c.bytecode_table.byte_tag as int,
        |t: Trace, i: int| c.addr_at(t, i),
        |t: Trace, i: int| c.code_at(t, i),
        |t: Trace, i: int| c.value_at(t, i),
    ]
}

/// A byte of calldata: the transaction, the mark of calldata, its index and the byte.
pub open spec fn tx_calldata_arguments(c: CopyCircuitConfig) -> Seq<spec_fn(Trace, int) -> int> {
    seq![
        |t: Trace, i: int| c.id_lo_at(t, i),
        |t: Trace, i: int| c.tx_table.call_data_tag as int,
        |t: Trace, i: int| c.addr_at(t, i),
        |t: Trace, i: int| c.value_at(t, i),
    ]
}

/// Whether each expression stands for the argument at its place.
spec fn arguments_stated(
    arguments: Seq<Expression>,
    stated: Seq<spec_fn(Trace, int) -> int>,
) -> bool {
    &&& arguments.len() == stated.len()
    &&& forall|k: int, t: Trace, i: int|
        0 <= k < arguments.len() && t.wf() ==> #[trigger] arguments[k].eval(t, i) == (stated[k])(
            t,
            i,
        )
}

/// Whether all expressions stay between `low` and `high` rows below the current one.
spec fn all_within(exprs: Seq<Expression>, low: int, high: int) -> bool {
    forall|k: int| 0 <= k < exprs.len() ==> (#[trigger] exprs[k]).rotations_within(low, high)
}

/// Pairs up two lists as far as the shorter one goes.
fn zip(left: &Vec<Expression>, right: &Vec<Expression>) -> (pairs: Vec<(Expression, Expression)>)
    ensures
        pairs@.len() == if left@.len() <= right@.len() {
            left@.len()
        } else {
            right@.len()
        },
        forall|k: int| 0 <= k < pairs@.len() ==> #[trigger] pairs@[k] == (left@[k], right@[k]),
{
    let mut pairs: Vec<(Expression, Expression)> = Vec::new();
    let mut k: usize = 0;
    while k < left.len() && k < right.len()
        invariant
            k <= left@.len(),
            k <= right@.len(),
            pairs@.len() == k,
            forall|j: int| 0 <= j < k ==> #[trigger] pairs@[j] == (left@[j], right@[j]),
        decreases left@.len() - k,
    {
        pairs.push((left[k].clone(), right[k].clone()));
        k += 1;
    }
    pairs
}

/// The lookup of each argument, scaled by the condition, in the table column it is paired with.
fn scaled_lookup(
    name: &'static str,
    condition: Expression,
    pairs: Vec<(Expression, Expression)>,
) -> (lookup: Lookup)
    ensures
        lookup.name == name,
        lookup.entries@.len() == pairs@.len(),
        forall|k: int, t: Trace, i: int|
            0 <= k < pairs@.len() && t.wf() ==> #[trigger] lookup.entries@[k].0.eval(t, i)
                == field_mul(t.modulus, condition.eval(t, i), pairs@[k].0.eval(t, i)),
        forall|k: int|
            0 <= k < pairs@.len() ==> #[trigger] lookup.entries@[k].1 == pairs@[k].1,
        condition.rotations_within(0, 2) && entries_within(pairs@, 0, 2) ==> entries_within(
            lookup.entries@,
            0,
            2,
        ),
{
    let mut entries: Vec<(Expression, Expression)> = Vec::new();
    let mut k: usize = 0;
    while k < pairs.len()
        invariant
            k <= pairs@.len(),
            entries@.len() == k,
            forall|j: int, t: Trace, i: int|
                0 <= j < k && t.wf() ==> #[trigger] entries@[j].0.eval(t, i) == field_mul(
                    t.modulus,
                    condition.eval(t, i),
                    pairs@[j].0.eval(t, i),
                ),
            forall|j: int| 0 <= j < k ==> #[trigger] entries@[j].1 == pairs@[j].1,
            condition.rotations_within(0, 2) && entries_within(pairs@, 0, 2) ==> entries_within(
                entries@,
                0,
                2,
            ),
        decreases pairs@.len() - k,
    {
        let ghost pair = pairs@[k as int];
        let argument = condition.clone().times(pairs[k].0.clone());
        entries.push((argument, pairs[k].1.clone()));
        k += 1;
    }
    Lookup { name, entries }
}

/// The lookup of `arguments`, scaled by `condition`, in the columns that they are paired with.
fn table_lookup(
    name: &'static str,
    condition: Expression,
    pairs: Vec<(Expression, Expression)>,
    Ghost(arguments): Ghost<Seq<Expression>>,
    Ghost(columns): Ghost<Seq<NamedColumn>>,
) -> (lookup: Lookup)
    requires
        pairs@.len() == if arguments.len() <= columns.len() {
            arguments.len()
        } else {
            columns.len()
        },
        forall|k: int|
            0 <= k < pairs@.len() ==> #[trigger] pairs@[k] == (
                arguments[k],
                any_query(columns[k].column, Rotation(0)),
            ),
    ensures
        forall|meaning: spec_fn(Trace, int) -> int, stated: Seq<spec_fn(Trace, int) -> int>|
            (forall|t: Trace, i: int|
                t.wf() ==> #[trigger] condition.eval(t, i) == meaning(t, i)) && arguments_stated(
                arguments,
                stated,
            ) ==> #[trigger] lookup_states(lookup, name@, meaning, stated, columns_of(columns)),
        condition.rotations_within(0, 2) && all_within(arguments, 0, 2) ==> entries_within(
            lookup.entries@,
            0,
            2,
        ),
{
    let lookup = scaled_lookup(name, condition, pairs);
    assert(entries_within(pairs@, 0, 2) || !all_within(arguments, 0, 2));
    assert forall|k: int, t: Trace, i: int|
        0 <= k < lookup.entries@.len() implies #[trigger] lookup.entries@[k].1.eval(t, i)
        == t.any_at(columns_of(columns)[k], i) by {
        assert(pairs@[k] == (arguments[k], any_query(columns[k].column, Rotation(0))));
        assert(lookup.entries@[k].1 == pairs@[k].1);
    }
    assert forall|k: int, t: Trace, i: int|
        0 <= k < lookup.entries@.len() && t.wf() implies #[trigger] lookup.entries@[k].0.eval(t, i)
        == field_mul(t.modulus, condition.eval(t, i), arguments[k].eval(t, i)) by {
        assert(pairs@[k] == (arguments[k], any_query(columns[k].column, Rotation(0))));
    }
    lookup
}

impl CopyCircuitConfig {
    /// One where the row is enabled, has `tag` and is not padding.
    fn unpadded_expr(&self, tag: CopyDataType) -> (e: Expression)
        ensures
            forall|t: Trace, i: int|
                t.wf() ==> #[trigger] e.eval(t, i) == unpadded_condition(*self, tag)(t, i),
            e.rotations_within(0, 2),
    {
        Expression::query_fixed(self.q_enable, Rotation::cur()).times(
            self.copy_table.tag.value_equals(tag, Rotation::cur()),
        ).times(not(Expression::query_advice(self.is_pad, Rotation::cur())))
    }

    /// Every memory row that is not padding is an access in the rw table.
    pub(crate) fn memory_lookup(&self) -> (lookup: Lookup)
        requires
            self.rw_table.columns@.len() == 14,
        ensures
            lookup_states(
                lookup,
                "Memory lookup"@,
                unpadded_condition(*self, CopyDataType::Memory),
                memory_arguments(*self),
                columns_of(self.rw_table.columns@),
            ),
            entries_within(lookup.entries@, 0, 2),
    {
        let cond = self.unpadded_expr(CopyDataType::Memory);
        let arguments = vec![
            Expression::query_advice(self.copy_table.rw_counter, Rotation::cur()),
            not(Expression::query_selector(self.q_step)),
            Expression::constant(self.rw_table.memory_target),
            Expression::query_advice(self.copy_table.id.lo, Rotation::cur()),  // call_id
            Expression::query_advice(self.copy_table.addr, Rotation::cur()),  // memory address
            Expression::constant(0),  // field tag
            Expression::constant(0),  // storage_key_lo
            Expression::constant(0),  // storage_key_hi
            Expression::query_advice(self.value, Rotation::cur()),  // value_lo
            Expression::constant(0),  // value_hi
            Expression::constant(0),  // value_prev_lo
            Expression::constant(0),  // value_prev_hi
            Expression::constant(0),  // init_val_lo
            Expression::constant(0),  // init_val_hi
        ];
        let ghost args = arguments@;
        proof {
            let stated = memory_arguments(*self);
            assert forall|k: int, t: Trace, i: int| 0 <= k < 14 && t.wf() implies #[trigger] args[k].eval(
                t,
                i,
            ) == (stated[k])(t, i) by {
                lemma_small_mod(0, t.modulus as nat);
                lemma_small_mod(1, t.modulus as nat);
            }
            assert(arguments_stated(args, stated));
        }
        let pairs = zip_eq(arguments, table_exprs(&self.rw_table.columns));
        table_lookup(
            "Memory lookup",
            cond,
            pairs,
            Ghost(args),
            Ghost(self.rw_table.columns@),
        )
    }

    /// Every log row is a write in the rw table.
    pub(crate) fn tx_log_lookup(&self) -> (lookup: Lookup)
        requires
            self.rw_table.columns@.len() == 14,
        ensures
            lookup_states(
                lookup,
                "TxLog lookup"@,
                tx_log_condition(*self),
                tx_log_arguments(*self),
                columns_of(self.rw_table.columns@),
            ),
            entries_within(lookup.entries@, 0, 2),
    {
        let cond = Expression::query_fixed(self.q_enable, Rotation::cur()).times(
            self.copy_table.tag.value_equals(CopyDataType::TxLog, Rotation::cur()),
        );
        let arguments = vec![
            Expression::query_advice(self.copy_table.rw_counter, Rotation::cur()),
            Expression::constant(1),
            Expression::constant(self.rw_table.tx_log_target),
            Expression::query_advice(self.copy_table.id.lo, Rotation::cur()),  // tx_id
            // byte_index || field_tag || log_id
            Expression::query_advice(self.copy_table.addr, Rotation::cur()),
            Expression::constant(0),  // field tag
            Expression::constant(0),  // storage_key_lo
            Expression::constant(0),  // storage_key_hi
            Expression::query_advice(self.value, Rotation::cur()),  // value_lo
            Expression::constant(0),  // value_hi
            Expression::constant(0),  // value_prev_lo
            Expression::constant(0),  // value_prev_hi
            Expression::constant(0),  // init_val_lo
            Expression::constant(0),  // init_val_hi
        ];
        let ghost args = arguments@;
        assert(arguments_stated(args, tx_log_arguments(*self)));
        let pairs = zip_eq(arguments, table_exprs(&self.rw_table.columns));
        table_lookup("TxLog lookup", cond, pairs, Ghost(args), Ghost(self.rw_table.columns@))
    }

    /// Every bytecode row that is not padding is a byte in the bytecode table.
    pub(crate) fn bytecode_lookup(&self) -> (lookup: Lookup)
        requires
            self.bytecode_table.columns@.len() == 6,
        ensures
            lookup_states(
                lookup,
                "Bytecode lookup"@,
                unpadded_condition(*self, CopyDataType::Bytecode),
                bytecode_arguments(*self),
                columns_of(self.bytecode_table.columns@),
            ),
            entries_within(lookup.entries@, 0, 2),
    {
        let cond = self.unpadded_expr(CopyDataType::Bytecode);
        let arguments = vec![
            Expression::query_advice(self.copy_table.id.lo, Rotation::cur()),
            Expression::query_advice(self.copy_table.id.hi, Rotation::cur()),
            Expression::constant(self.bytecode_table.byte_tag),
            Expression::query_advice(self.copy_table.addr, Rotation::cur()),
            Expression::query_advice(self.is_code, Rotation::cur()),
            Expression::query_advice(self.value, Rotation::cur()),
        ];
        let ghost args = arguments@;
        assert(arguments_stated(args, bytecode_arguments(*self)));
        let pairs = zip_eq(arguments, table_exprs(&self.bytecode_table.columns));
        table_lookup(
            "Bytecode lookup",
            cond,
            pairs,
            Ghost(args),
            Ghost(self.bytecode_table.columns@),
        )
    }

    /// Every calldata row that is not padding is a byte in the tx table.
    pub(crate) fn tx_calldata_lookup(&self) -> (lookup: Lookup)
        ensures
            lookup_states(
                lookup,
                "Tx calldata lookup"@,
                unpadded_condition(*self, CopyDataType::TxCalldata),
                tx_calldata_arguments(*self),
                columns_of(self.tx_table.columns@),
            ),
            entries_within(lookup.entries@, 0, 2),
    {
        let cond = self.unpadded_expr(CopyDataType::TxCalldata);
        let arguments = vec![
            // For transaction ID we use lo limb only
            Expression::query_advice(self.copy_table.id.lo, Rotation::cur()),
            Expression::constant(self.tx_table.call_data_tag),
            Expression::query_advice(self.copy_table.addr, Rotation::cur()),
            Expression::query_advice(self.value, Rotation::cur()),
        ];
        assert(arguments_stated(arguments@, tx_calldata_arguments(*self)));
        let pairs = zip(&arguments, &table_exprs(&self.tx_table.columns));
        table_lookup(
            "Tx calldata lookup",
            cond,
            pairs,
            Ghost(arguments@),
            Ghost(self.tx_table.columns@),
        )
    }
}

} // verus!
