//! What each row is looked up as, and how that carries a byte from one table to another.
use crate::binary_number::{lemma_tag_decodes, CopyDataType};
use crate::config::{CopyCircuitConfig, CopyCircuitConfigArgs};
use crate::constraint_system::{lookup_states, ConstraintSystem, Lookup};
use crate::expression::{AnyColumn, Expression};
use crate::field::{field_mul, in_field};
use crate::lookup::{
    bytecode_arguments, memory_arguments, tx_calldata_arguments, tx_log_arguments,
    tx_log_condition, unpadded_condition,
};
use crate::soundness::{accepted, event_copies_values, event_walks_both_sides, is_event, tag_valid};
use crate::table::columns_of;
use crate::trace::Trace;
use vstd::arithmetic::div_mod::*;
use vstd::prelude::*;

verus! {

/// What a lookup looks up in the row `i`.
pub open spec fn looked_up(lookup: Lookup, t: Trace, i: int) -> Seq<int> {
    Seq::new(lookup.entries@.len(), |k: int| lookup.entries@[k].0.eval(t, i))
}

/// What the row `i` of the table holds that a lookup goes to.
pub open spec fn found_in(lookup: Lookup, t: Trace, i: int) -> Seq<int> {
    Seq::new(lookup.entries@.len(), |k: int| lookup.entries@[k].1.eval(t, i))
}

/// Each number times `weight`, in the field of order `p`.
pub open spec fn scaled(p: int, weight: int, numbers: Seq<int>) -> Seq<int> {
    Seq::new(numbers.len(), |k: int| (weight * numbers[k]) % p)
}

/// As many zeros.
pub open spec fn zeros(count: nat) -> Seq<int> {
    Seq::new(count, |k: int| 0int)
}

/// A lookup whose condition is the product of `weight` and of whether the row has a tag.
proof fn lemma_looked_up(
    lookup: Lookup,
    name: Seq<char>,
    condition: spec_fn(Trace, int) -> int,
    arguments: Seq<spec_fn(Trace, int) -> int>,
    table: Seq<AnyColumn>,
    t: Trace,
    i: int,
    weight: int,
    numbers: Seq<int>,
)
    requires
        t.wf(),
        lookup_states(lookup, name, condition, arguments, table),
        condition(t, i) == weight,
        numbers.len() == lookup.entries@.len(),
        forall|k: int|
            0 <= k < numbers.len() ==> #[trigger] numbers[k] == (arguments[k])(t, i) && in_field(
                t.modulus,
                numbers[k],
            ),
    ensures
        looked_up(lookup, t, i) == scaled(t.modulus, weight, numbers),
        weight == 1 ==> looked_up(lookup, t, i) == numbers,
        weight == 0 ==> looked_up(lookup, t, i) == zeros(numbers.len()),
        forall|k: int|
            0 <= k < lookup.entries@.len() ==> #[trigger] found_in(lookup, t, i)[k] == t.any_at(
                table[k],
                i,
            ),
{
    let p = t.modulus;
    assert forall|k: int| 0 <= k < numbers.len() implies #[trigger] looked_up(lookup, t, i)[k] == (
    weight * numbers[k]) % p && (weight == 1 ==> (weight * numbers[k]) % p == numbers[k]) && (weight
        == 0 ==> (weight * numbers[k]) % p == 0) by {
        let x = numbers[k];
        assert(lookup.entries@[k].0.eval(t, i) == field_mul(p, condition(t, i), (arguments[k])(t, i)));
        assert(0 * x == 0 && 1 * x == x) by (nonlinear_arith);
        lemma_small_mod(x as nat, p as nat);
        lemma_small_mod(0, p as nat);
    }
    assert(looked_up(lookup, t, i) =~= scaled(p, weight, numbers));
    if weight == 1 {
        assert(looked_up(lookup, t, i) =~= numbers);
    }
    if weight == 0 {
        assert(looked_up(lookup, t, i) =~= zeros(numbers.len()));
    }
    assert forall|k: int| 0 <= k < lookup.entries@.len() implies #[trigger] found_in(
        lookup,
        t,
        i,
    )[k] == t.any_at(table[k], i) by {
        assert(lookup.entries@[k].1.eval(t, i) == t.any_at(table[k], i));
    }
}

/// The condition of a lookup, once the row's tag is known.
proof fn lemma_conditions(
    c: CopyCircuitConfig,
    t: Trace,
    i: int,
    tag: CopyDataType,
    wanted: CopyDataType,
)
    requires
        t.wf(),
        c.copy_table.tag.holds_tag(t, i, tag),
    ensures
        unpadded_condition(c, wanted)(t, i) == if tag == wanted {
            (t.fixed_at(c.q_enable, i) * ((1 - c.pad_at(t, i)) % t.modulus)) % t.modulus
        } else {
            0
        },
        tx_log_condition(c)(t, i) == if tag == CopyDataType::TxLog {
            t.fixed_at(c.q_enable, i)
        } else {
            0
        },
        t.fixed_at(c.q_enable, i) == 1 && c.pad_at(t, i) == 0 ==> (t.fixed_at(c.q_enable, i) * ((1
            - c.pad_at(t, i)) % t.modulus)) % t.modulus == 1,
        t.fixed_at(c.q_enable, i) == 0 || c.pad_at(t, i) == 1 ==> (t.fixed_at(c.q_enable, i) * ((1
            - c.pad_at(t, i)) % t.modulus)) % t.modulus == 0,
{
    let p = t.modulus;
    let q = t.fixed_at(c.q_enable, i);
    let rest = (1 - c.pad_at(t, i)) % p;
    lemma_tag_decodes(c.copy_table.tag, t, i, tag, wanted);
    lemma_tag_decodes(c.copy_table.tag, t, i, tag, CopyDataType::TxLog);
    assert(q * 1 == q && q * 0 == 0 && 0 * rest == 0) by (nonlinear_arith);
    lemma_mod_twice((t.fixed)(c.q_enable, i), p);
    lemma_small_mod(0, p as nat);
    lemma_small_mod(1, p as nat);
    if q == 1 && c.pad_at(t, i) == 0 {
        assert(q * rest == 1);
    }
    if q == 0 || c.pad_at(t, i) == 1 {
        assert(q * rest == 0) by (nonlinear_arith)
            requires
                q == 0 || rest == 0,
        ;
    }
}

/// An enabled memory row that is not padding looks its access up in the rw table: a read if the
/// row is a step and a write if not, at the row's counter, call and address, of the row's value.
/// All other rows look up zeros.
pub proof fn memory_rows_look_up_their_access(
    meta: &mut ConstraintSystem,
    args: CopyCircuitConfigArgs,
    config: CopyCircuitConfig,
    t: Trace,
    i: int,
    tag: CopyDataType,
)
    requires
        call_ensures(CopyCircuitConfig::new, (meta, args), config),
        args.rw_table.columns@.len() == 14,
        args.bytecode_table.columns@.len() == 6,
        t.wf(),
        args.copy_table.tag.holds_tag(t, i, tag),
    ensures
        final(meta).lookups@.len() == old(meta).lookups@.len() + 4,
        ({
            let lookup = final(meta).lookups@[old(meta).lookups@.len() as int + 0];
            let q = t.fixed_at(args.q_enable, i);
            let pad = t.advice_at(config.is_pad, i);
            let tuple: Seq<int> = seq![
                t.advice_at(args.copy_table.rw_counter, i),
                if t.selected(config.q_step, i) {
                    0int
                } else {
                    1
                },
                args.rw_table.memory_target as int,
                t.advice_at(args.copy_table.id.lo, i),
                t.advice_at(args.copy_table.addr, i),
                0,
                0,
                0,
                t.advice_at(config.value, i),
                0,
                0,
                0,
                0,
                0,
            ];
            &&& lookup.entries@.len() == 14
            &&& found_in(lookup, t, i) == Seq::new(
                lookup.entries@.len(),
                |k: int| t.any_at(args.rw_table.columns@[k].column, i),
            )
            &&& tag == CopyDataType::Memory ==> looked_up(lookup, t, i) == scaled(
                t.modulus,
                (q * ((1 - pad) % t.modulus)) % t.modulus,
                tuple,
            )
            &&& tag == CopyDataType::Memory && q == 1 && pad == 0 ==> looked_up(lookup, t, i) == tuple
            &&& tag != CopyDataType::Memory || q == 0 || pad == 1 ==> looked_up(lookup, t, i) == zeros(
                lookup.entries@.len(),
            )
        }),
{
    let lookups = final(meta).lookups@.skip(old(meta).lookups@.len() as int);
    let lookup = lookups[0];
    assert(lookup == final(meta).lookups@[old(meta).lookups@.len() as int + 0]);
    let arguments = memory_arguments(config);
    let numbers = Seq::new(lookup.entries@.len(), |k: int| (arguments[k])(t, i));
    let condition = unpadded_condition(config, CopyDataType::Memory);
    lemma_conditions(config, t, i, tag, CopyDataType::Memory);
    lemma_looked_up(
        lookup,
        "Memory lookup"@,
        condition,
        arguments,
        columns_of(args.rw_table.columns@),
        t,
        i,
        condition(t, i),
        numbers,
    );
    assert(found_in(lookup, t, i) =~= Seq::new(
        lookup.entries@.len(),
        |k: int| t.any_at(args.rw_table.columns@[k].column, i),
    ));
    assert(numbers =~= seq![
        t.advice_at(args.copy_table.rw_counter, i),
        if t.selected(config.q_step, i) {
            0int
        } else {
            1
        },
        args.rw_table.memory_target as int,
        t.advice_at(args.copy_table.id.lo, i),
        t.advice_at(args.copy_table.addr, i),
        0,
        0,
        0,
        t.advice_at(config.value, i),
        0,
        0,
        0,
        0,
        0,
    ]);
}

/// An enabled log row looks a write up in the rw table, at the row's counter, transaction and
/// address, of the row's value. All other rows look up zeros.
pub proof fn log_rows_look_up_their_write(
    meta: &mut ConstraintSystem,
    args: CopyCircuitConfigArgs,
    config: CopyCircuitConfig,
    t: Trace,
    i: int,
    tag: CopyDataType,
)
    requires
        call_ensures(CopyCircuitConfig::new, (meta, args), config),
        args.rw_table.columns@.len() == 14,
        args.bytecode_table.columns@.len() == 6,
        t.wf(),
        args.copy_table.tag.holds_tag(t, i, tag),
    ensures
        final(meta).lookups@.len() == old(meta).lookups@.len() + 4,
        ({
            let lookup = final(meta).lookups@[old(meta).lookups@.len() as int + 1];
            let q = t.fixed_at(args.q_enable, i);
            let tuple: Seq<int> = seq![
                t.advice_at(args.copy_table.rw_counter, i),
                1,
                args.rw_table.tx_log_target as int,
                t.advice_at(args.copy_table.id.lo, i),
                t.advice_at(args.copy_table.addr, i),
                0,
                0,
                0,
                t.advice_at(config.value, i),
                0,
                0,
                0,
                0,
                0,
            ];
            &&& lookup.entries@.len() == 14
            &&& found_in(lookup, t, i) == Seq::new(
                lookup.entries@.len(),
                |k: int| t.any_at(args.rw_table.columns@[k].column, i),
            )
            &&& tag == CopyDataType::TxLog ==> looked_up(lookup, t, i) == scaled(
                t.modulus,
                q,
                tuple,
            )
            &&& tag == CopyDataType::TxLog && q == 1 ==> looked_up(lookup, t, i) == tuple
            &&& tag != CopyDataType::TxLog || q == 0 ==> looked_up(lookup, t, i) == zeros(
                lookup.entries@.len(),
            )
        }),
{
    let lookups = final(meta).lookups@.skip(old(meta).lookups@.len() as int);
    let lookup = lookups[1];
    assert(lookup == final(meta).lookups@[old(meta).lookups@.len() as int + 1]);
    let arguments = tx_log_arguments(config);
    let numbers = Seq::new(lookup.entries@.len(), |k: int| (arguments[k])(t, i));
    let condition = tx_log_condition(config);
    lemma_conditions(config, t, i, tag, CopyDataType::TxLog);
    lemma_looked_up(
        lookup,
        "TxLog lookup"@,
        condition,
        arguments,
        columns_of(args.rw_table.columns@),
        t,
        i,
        condition(t, i),
        numbers,
    );
    assert(found_in(lookup, t, i) =~= Seq::new(
        lookup.entries@.len(),
        |k: int| t.any_at(args.rw_table.columns@[k].column, i),
    ));
    assert(numbers =~= seq![
        t.advice_at(args.copy_table.rw_counter, i),
        1,
        args.rw_table.tx_log_target as int,
        t.advice_at(args.copy_table.id.lo, i),
        t.advice_at(args.copy_table.addr, i),
        0,
        0,
        0,
        t.advice_at(config.value, i),
        0,
        0,
        0,
        0,
        0,
    ]);
}

/// An enabled bytecode row that is not padding, be it a read or a write, looks the row's value up
/// in the bytecode table, with the code's hash, its index and whether it is an opcode. All other
/// rows look up zeros.
pub proof fn code_rows_look_up_their_byte(
    meta: &mut ConstraintSystem,
    args: CopyCircuitConfigArgs,
    config: CopyCircuitConfig,
    t: Trace,
    i: int,
    tag: CopyDataType,
)
    requires
        call_ensures(CopyCircuitConfig::new, (meta, args), config),
        args.rw_table.columns@.len() == 14,
        args.bytecode_table.columns@.len() == 6,
        t.wf(),
        args.copy_table.tag.holds_tag(t, i, tag),
    ensures
        final(meta).lookups@.len() == old(meta).lookups@.len() + 4,
        ({
            let lookup = final(meta).lookups@[old(meta).lookups@.len() as int + 2];
            let q = t.fixed_at(args.q_enable, i);
            let pad = t.advice_at(config.is_pad, i);
            let tuple: Seq<int> = seq![
                t.advice_at(args.copy_table.id.lo, i),
                t.advice_at(args.copy_table.id.hi, i),
                args.bytecode_table.byte_tag as int,
                t.advice_at(args.copy_table.addr, i),
                t.advice_at(config.is_code, i),
                t.advice_at(config.value, i),
            ];
            &&& lookup.entries@.len() == 6
            &&& found_in(lookup, t, i) == Seq::new(
                lookup.entries@.len(),
                |k: int| t.any_at(args.bytecode_table.columns@[k].column, i),
            )
            &&& tag == CopyDataType::Bytecode ==> looked_up(lookup, t, i) == scaled(
                t.modulus,
                (q * ((1 - pad) % t.modulus)) % t.modulus,
                tuple,
            )
            &&& tag == CopyDataType::Bytecode && q == 1 && pad == 0 ==> looked_up(lookup, t, i) == tuple
            &&& tag != CopyDataType::Bytecode || q == 0 || pad == 1 ==> looked_up(lookup, t, i) == zeros(
                lookup.entries@.len(),
            )
        }),
{
    let lookups = final(meta).lookups@.skip(old(meta).lookups@.len() as int);
    let lookup = lookups[2];
    assert(lookup == final(meta).lookups@[old(meta).lookups@.len() as int + 2]);
    let arguments = bytecode_arguments(config);
    let numbers = Seq::new(lookup.entries@.len(), |k: int| (arguments[k])(t, i));
    let condition = unpadded_condition(config, CopyDataType::Bytecode);
    lemma_conditions(config, t, i, tag, CopyDataType::Bytecode);
    lemma_looked_up(
        lookup,
        "Bytecode lookup"@,
        condition,
        arguments,
        columns_of(args.bytecode_table.columns@),
        t,
        i,
        condition(t, i),
        numbers,
    );
    assert(found_in(lookup, t, i) =~= Seq::new(
        lookup.entries@.len(),
        |k: int| t.any_at(args.bytecode_table.columns@[k].column, i),
    ));
    assert(numbers =~= seq![
        t.advice_at(args.copy_table.id.lo, i),
        t.advice_at(args.copy_table.id.hi, i),
        args.bytecode_table.byte_tag as int,
        t.advice_at(args.copy_table.addr, i),
        t.advice_at(config.is_code, i),
        t.advice_at(config.value, i),
    ]);
}

/// An enabled calldata row that is not padding looks the row's value up in the tx table, with the
/// transaction and the row's own address, as far as the table has columns. All other rows look up
/// zeros.
pub proof fn calldata_rows_look_up_their_byte(
    meta: &mut ConstraintSystem,
    args: CopyCircuitConfigArgs,
    config: CopyCircuitConfig,
    t: Trace,
    i: int,
    tag: CopyDataType,
)
    requires
        call_ensures(CopyCircuitConfig::new, (meta, args), config),
        args.rw_table.columns@.len() == 14,
        args.bytecode_table.columns@.len() == 6,
        t.wf(),
        args.copy_table.tag.holds_tag(t, i, tag),
    ensures
        final(meta).lookups@.len() == old(meta).lookups@.len() + 4,
        ({
            let lookup = final(meta).lookups@[old(meta).lookups@.len() as int + 3];
            let q = t.fixed_at(args.q_enable, i);
            let pad = t.advice_at(config.is_pad, i);
            let tuple: Seq<int> = seq![
                t.advice_at(args.copy_table.id.lo, i),
                args.tx_table.call_data_tag as int,
                t.advice_at(args.copy_table.addr, i),
                t.advice_at(config.value, i),
            ].take(lookup.entries@.len() as int);
            &&& lookup.entries@.len() == if args.tx_table.columns@.len() < 4 {
                args.tx_table.columns@.len()
            } else {
                4
            }
            &&& found_in(lookup, t, i) == Seq::new(
                lookup.entries@.len(),
                |k: int| t.any_at(args.tx_table.columns@[k].column, i),
            )
            &&& tag == CopyDataType::TxCalldata ==> looked_up(lookup, t, i) == scaled(
                t.modulus,
                (q * ((1 - pad) % t.modulus)) % t.modulus,
                tuple,
            )
            &&& tag == CopyDataType::TxCalldata && q == 1 && pad == 0 ==> looked_up(lookup, t, i) == tuple
            &&& tag != CopyDataType::TxCalldata || q == 0 || pad == 1 ==> looked_up(lookup, t, i) == zeros(
                lookup.entries@.len(),
            )
        }),
{
    let lookups = final(meta).lookups@.skip(old(meta).lookups@.len() as int);
    let lookup = lookups[3];
    assert(lookup == final(meta).lookups@[old(meta).lookups@.len() as int + 3]);
    let arguments = tx_calldata_arguments(config);
    let numbers = Seq::new(lookup.entries@.len(), |k: int| (arguments[k])(t, i));
    let condition = unpadded_condition(config, CopyDataType::TxCalldata);
    lemma_conditions(config, t, i, tag, CopyDataType::TxCalldata);
    lemma_looked_up(
        lookup,
        "Tx calldata lookup"@,
        condition,
        arguments,
        columns_of(args.tx_table.columns@),
        t,
        i,
        condition(t, i),
        numbers,
    );
    assert(found_in(lookup, t, i) =~= Seq::new(
        lookup.entries@.len(),
        |k: int| t.any_at(args.tx_table.columns@[k].column, i),
    ));
    assert(numbers =~= seq![
        t.advice_at(args.copy_table.id.lo, i),
        args.tx_table.call_data_tag as int,
        t.advice_at(args.copy_table.addr, i),
        t.advice_at(config.value, i),
    ].take(lookup.entries@.len() as int));
}

/// All read rows of an event have the tag of its first one, and all write rows that of its
/// second.
proof fn lemma_tag_stays(
    c: CopyCircuitConfig,
    r: Expression,
    t: Trace,
    n: int,
    start: int,
    steps: int,
    i: int,
    tag: CopyDataType,
)
    requires
        accepted(c, r, t, n),
        is_event(c, t, n, start, steps),
        start <= i < start + 2 * steps,
        c.copy_table.tag.holds_tag(
            t,
            if i % 2 == 0 {
                start
            } else {
                start + 1
            },
            tag,
        ),
    ensures
        c.copy_table.tag.holds_tag(t, i, tag),
{
    let side = if i % 2 == 0 {
        start
    } else {
        start + 1
    };
    assert(tag_valid(c, t, i));
    let held = choose|held: CopyDataType| #[trigger] c.copy_table.tag.holds_tag(t, i, held);
    lemma_tag_decodes(c.copy_table.tag, t, i, held, tag);
    lemma_tag_decodes(c.copy_table.tag, t, side, tag, tag);
    assert(c.tag_at(t, i) == c.tag_at(t, side));
    assert(held.spec_code() == tag.spec_code());
}

/// What an accepted copy event of `steps` bytes, from rows with the tag `src` to rows with the tag
/// `dst`, looks up for its `j`-th byte.
///
/// The read row looks the byte up where the source has it, `j` addresses after the first one,
/// unless the read is padding. The write row looks the same byte up where the destination has it,
/// again `j` addresses after the first one.
pub proof fn event_carries_bytes_between_tables(
    meta: &mut ConstraintSystem,
    args: CopyCircuitConfigArgs,
    config: CopyCircuitConfig,
    t: Trace,
    n: int,
    start: int,
    steps: int,
    j: int,
    src: CopyDataType,
    dst: CopyDataType,
)
    requires
        call_ensures(CopyCircuitConfig::new, (meta, args), config),
        args.rw_table.columns@.len() == 14,
        args.bytecode_table.columns@.len() == 6,
        args.tx_table.columns@.len() >= 4,
        accepted(config, args.challenges.keccak_input, t, n),
        is_event(config, t, n, start, steps),
        0 <= j < steps,
        args.copy_table.tag.holds_tag(t, start, src),
        args.copy_table.tag.holds_tag(t, start + 1, dst),
    ensures
        ({
            let memory = final(meta).lookups@[old(meta).lookups@.len() as int];
            let log = final(meta).lookups@[old(meta).lookups@.len() as int + 1];
            let code = final(meta).lookups@[old(meta).lookups@.len() as int + 2];
            let calldata = final(meta).lookups@[old(meta).lookups@.len() as int + 3];
            let table = args.copy_table;
            let read = start + 2 * j;
            let write = read + 1;
            let byte = t.advice_at(config.value, read);
            let padded = t.advice_at(config.is_pad, read) == 1;
            let src_id = t.advice_at(table.id.lo, start);
            let dst_id = t.advice_at(table.id.lo, start + 1);
            let src_addr = (t.advice_at(table.addr, start) + j) % t.modulus;
            let dst_addr = (t.advice_at(table.addr, start + 1) + j) % t.modulus;
            &&& padded ==> byte == 0
            &&& src == CopyDataType::Memory && !padded ==> looked_up(memory, t, read) == seq![
                t.advice_at(table.rw_counter, read),
                0,
                args.rw_table.memory_target as int,
                src_id,
                src_addr,
                0,
                0,
                0,
                byte,
                0,
                0,
                0,
                0,
                0,
            ]
            &&& src == CopyDataType::Bytecode && !padded ==> looked_up(code, t, read) == seq![
                src_id,
                t.advice_at(table.id.hi, start),
                args.bytecode_table.byte_tag as int,
                src_addr,
                t.advice_at(config.is_code, read),
                byte,
            ]
            &&& src == CopyDataType::TxCalldata && !padded ==> looked_up(calldata, t, read) == seq![
                src_id,
                args.tx_table.call_data_tag as int,
                src_addr,
                byte,
            ]
            &&& dst == CopyDataType::Memory ==> looked_up(memory, t, write) == seq![
                t.advice_at(table.rw_counter, write),
                1,
                args.rw_table.memory_target as int,
                dst_id,
                dst_addr,
                0,
                0,
                0,
                byte,
                0,
                0,
                0,
                0,
                0,
            ]
            &&& dst == CopyDataType::TxLog ==> looked_up(log, t, write) == seq![
                t.advice_at(table.rw_counter, write),
                1,
                args.rw_table.tx_log_target as int,
                dst_id,
                dst_addr,
                0,
                0,
                0,
                byte,
                0,
                0,
                0,
                0,
                0,
            ]
            &&& dst == CopyDataType::Bytecode ==> looked_up(code, t, write) == seq![
                dst_id,
                t.advice_at(table.id.hi, start + 1),
                args.bytecode_table.byte_tag as int,
                dst_addr,
                t.advice_at(config.is_code, write),
                byte,
            ]
        }),
{
    let r = args.challenges.keccak_input;
    let read = start + 2 * j;
    let write = read + 1;
    assert(read % 2 == 0 && write % 2 == 1);
    lemma_tag_stays(config, r, t, n, start, steps, read, src);
    lemma_tag_stays(config, r, t, n, start, steps, write, dst);
    event_walks_both_sides(config, r, t, n, start, steps, j);
    event_copies_values(config, r, t, n, start, steps, j);
    assert(t.fixed_at(config.q_enable, read) == 1);
    assert(t.fixed_at(config.q_enable, write) == 1);
    memory_rows_look_up_their_access(meta, args, config, t, read, src);
    memory_rows_look_up_their_access(meta, args, config, t, write, dst);
    log_rows_look_up_their_write(meta, args, config, t, write, dst);
    code_rows_look_up_their_byte(meta, args, config, t, read, src);
    code_rows_look_up_their_byte(meta, args, config, t, write, dst);
    calldata_rows_look_up_their_byte(meta, args, config, t, read, src);
    let calldata = final(meta).lookups@[old(meta).lookups@.len() as int + 3];
    let tuple = seq![
        t.advice_at(args.copy_table.id.lo, read),
        args.tx_table.call_data_tag as int,
        t.advice_at(args.copy_table.addr, read),
        t.advice_at(config.value, read),
    ];
    assert(tuple.take(calldata.entries@.len() as int) =~= tuple);
}

} // verus!
