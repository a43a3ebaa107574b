//! What the gates amount to, row by row.
use crate::binary_number::{lemma_tag_decodes, CopyDataType};
use crate::config::{
    id_hi_clauses, last_step_clauses, verify_row_clauses, verify_step_clauses, CopyCircuitConfig,
    CopyCircuitConfigArgs,
};
use crate::constraint_system::{ConstraintSystem, Gate};
use crate::expression::Expression;
use crate::field::{field_mul, lemma_truth_values};
use crate::soundness::{accepted, gates_demand_what_they_state, gates_met};
use crate::trace::Trace;
use vstd::arithmetic::div_mod::*;
use vstd::prelude::*;

verus! {

/// In an accepted trace only a read row begins an event and only a write row ends one, whatever
/// the rows' tags.
pub proof fn flags_are_where_they_belong(
    c: CopyCircuitConfig,
    r: Expression,
    t: Trace,
    n: int,
    i: int,
)
    requires
        accepted(c, r, t, n),
        0 <= i < n,
    ensures
        t.advice_at(c.copy_table.is_first, i) == 0 || t.advice_at(c.copy_table.is_first, i) == 1,
        t.advice_at(c.is_last, i) == 0 || t.advice_at(c.is_last, i) == 1,
        i % 2 == 1 ==> t.advice_at(c.copy_table.is_first, i) == 0,
        i % 2 == 0 ==> t.advice_at(c.is_last, i) == 0,
{
    assert(gates_met(c, r, t, i));
    assert(t.fixed_at(c.q_enable, i) == 1);
    let clauses = verify_row_clauses(c);
    assert((clauses[0].demand)(t, i));
    assert((clauses[1].demand)(t, i));
    assert((clauses[2].demand)(t, i));
    assert((clauses[3].demand)(t, i));
}

/// The sums that the comparisons with a row's tag are part of.
proof fn lemma_tag_sums(c: CopyCircuitConfig, t: Trace, i: int, tag: CopyDataType, below: CopyDataType)
    requires
        t.wf(),
        c.copy_table.tag.holds_tag(t, i, tag),
    ensures
        c.tag_at(t, i) == tag.spec_code(),
        forall|other: CopyDataType| #[trigger]
            c.tag_is(t, i, other) == if other == tag {
                1int
            } else {
                0
            },
        c.rw_diff_at(t, i) == if tag == CopyDataType::Memory || tag == CopyDataType::TxLog {
            (1 - c.pad_at(t, i)) % t.modulus
        } else {
            0
        },
        c.copy_table.tag.holds_tag(t, i + 1, below) ==> (field_mul(
            t.modulus,
            c.tag_is(t, i, CopyDataType::Memory),
            c.tag_is(t, i + 1, CopyDataType::Bytecode),
        ) + c.tag_is(t, i + 1, CopyDataType::RlcAcc)) % t.modulus == if (tag == CopyDataType::Memory
            && below == CopyDataType::Bytecode) || below == CopyDataType::RlcAcc {
            1int
        } else {
            0
        },
{
    let p = t.modulus;
    let config = c.copy_table.tag;
    assert forall|other: CopyDataType| #[trigger] c.tag_is(t, i, other) == if other == tag {
        1int
    } else {
        0
    } by {
        lemma_tag_decodes(config, t, i, tag, other);
    }
    lemma_tag_decodes(config, t, i, tag, CopyDataType::Memory);
    lemma_tag_decodes(config, t, i, tag, CopyDataType::TxLog);
    if config.holds_tag(t, i + 1, below) {
        lemma_tag_decodes(config, t, i + 1, below, CopyDataType::Bytecode);
        lemma_tag_decodes(config, t, i + 1, below, CopyDataType::RlcAcc);
        lemma_truth_values(
            p,
            c.tag_is(t, i, CopyDataType::Memory),
            c.tag_is(t, i + 1, CopyDataType::Bytecode),
        );
    }
    lemma_truth_values(
        p,
        c.tag_is(t, i, CopyDataType::Memory),
        c.tag_is(t, i, CopyDataType::TxLog),
    );
    lemma_small_mod(0, p as nat);
    lemma_small_mod(1, p as nat);
    let rest = (1 - c.pad_at(t, i)) % p;
    assert(0 * rest == 0 && 1 * rest == rest) by (nonlinear_arith);
    lemma_mod_twice(1 - c.pad_at(t, i), p);
}

/// What the gates of the copy circuit come to in a row with the tag `tag`, above a row with the
/// tag `below`.
proof fn lemma_row(
    c: CopyCircuitConfig,
    r: Expression,
    t: Trace,
    i: int,
    tag: CopyDataType,
    below: CopyDataType,
)
    requires
        t.wf(),
        c.copy_table.tag.holds_tag(t, i, tag),
        c.last_at(t, i + 1) == 0 || c.copy_table.tag.holds_tag(t, i + 1, below),
    ensures
        gates_met(c, r, t, i) <==> {
            &&& c.enabled(t, i) ==> {
                let last = c.last_at(t, i);
                let last_below = c.last_at(t, i + 1);
                let access = if tag == CopyDataType::Memory || tag == CopyDataType::TxLog {
                    (1 - c.pad_at(t, i)) % t.modulus
                } else {
                    0
                };
                &&& c.first_at(t, i) == 0 || c.first_at(t, i) == 1
                &&& last == 0 || last == 1
                &&& !c.is_step(t, i) ==> c.first_at(t, i) == 0
                &&& c.is_step(t, i) ==> last == 0
                &&& tag != CopyDataType::Padding ==> t.fixed_at(c.q_enable, i + 2) == 1
                &&& tag != CopyDataType::Padding && last_below != 1 - last ==> {
                    &&& c.id_lo_at(t, i + 2) == c.id_lo_at(t, i)
                    &&& c.id_hi_at(t, i + 2) == c.id_hi_at(t, i)
                    &&& c.tag_at(t, i + 2) == tag.spec_code()
                    &&& c.addr_at(t, i + 2) == (c.addr_at(t, i) + 1) % t.modulus
                    &&& c.src_addr_end_at(t, i + 2) == c.src_addr_end_at(t, i)
                }
                &&& last == 0 ==> {
                    &&& c.rw_counter_at(t, i + 1) == (c.rw_counter_at(t, i) + access) % t.modulus
                    &&& c.rwc_inc_left_at(t, i + 1) == (c.rwc_inc_left_at(t, i) - access)
                        % t.modulus
                    &&& c.rlc_acc_at(t, i + 1) == c.rlc_acc_at(t, i)
                }
                &&& last == 1 ==> c.rwc_inc_left_at(t, i) == access
                &&& last_below != 0 && ((tag == CopyDataType::Memory && below
                    == CopyDataType::Bytecode) || below == CopyDataType::RlcAcc) ==> c.acc_at(
                    t,
                    i + 1,
                ) == c.rlc_acc_at(t, i + 1)
                &&& (tag == CopyDataType::Memory || tag == CopyDataType::TxLog || tag
                    == CopyDataType::TxCalldata) && c.pad_at(t, i) != 1 ==> c.id_hi_at(t, i) == 0
            }
            &&& c.is_step(t, i) ==> {
                let last_below = c.last_at(t, i + 1);
                &&& last_below != 0 ==> c.bytes_left_at(t, i) == 1
                &&& last_below != 1 && tag != CopyDataType::Padding ==> c.bytes_left_at(t, i) == (
                c.bytes_left_at(t, i + 2) + 1) % t.modulus
                &&& c.first_at(t, i) != 0 ==> c.acc_at(t, i) == c.value_at(t, i)
                &&& c.value_at(t, i + 1) == c.value_at(t, i)
                &&& c.acc_at(t, i + 1) == c.acc_at(t, i)
                &&& last_below != 1 && c.pad_at(t, i) != 1 ==> c.acc_at(t, i + 2) == ((c.acc_at(
                    t,
                    i,
                ) * r.eval(t, i)) % t.modulus + c.value_at(t, i + 2)) % t.modulus
                &&& c.pad_at(t, i) != 0 ==> c.value_at(t, i) == 0
                &&& c.pad_at(t, i) == (1 - c.lt_at(t, i)) % t.modulus
                &&& c.pad_at(t, i + 1) == 0
            }
        },
{
    lemma_tag_sums(c, t, i, tag, below);
    lemma_truth_values(t.modulus, 0, 1);
    let row = verify_row_clauses(c);
    let end = last_step_clauses(c);
    let step = verify_step_clauses(c, r);
    let memory = id_hi_clauses(c, CopyDataType::Memory);
    let log = id_hi_clauses(c, CopyDataType::TxLog);
    let calldata = id_hi_clauses(c, CopyDataType::TxCalldata);
    assert(c.tag_is(t, i, CopyDataType::Padding) == if tag == CopyDataType::Padding {
        1int
    } else {
        0
    });
    assert(c.tag_is(t, i, CopyDataType::Memory) <= 1);
    assert(c.tag_is(t, i, CopyDataType::TxLog) <= 1);
    assert(c.tag_is(t, i, CopyDataType::TxCalldata) <= 1);
    if gates_met(c, r, t, i) {
        assert((row[0].demand)(t, i));
        assert((row[1].demand)(t, i));
        assert((row[2].demand)(t, i));
        assert((row[3].demand)(t, i));
        assert((row[4].demand)(t, i));
        assert((row[5].demand)(t, i));
        assert((row[6].demand)(t, i));
        assert((row[7].demand)(t, i));
        assert((row[8].demand)(t, i));
        assert((row[9].demand)(t, i));
        assert((row[10].demand)(t, i));
        assert((row[11].demand)(t, i));
        assert((row[12].demand)(t, i));
        assert((row[13].demand)(t, i));
        assert((end[0].demand)(t, i));
        assert((step[0].demand)(t, i));
        assert((step[1].demand)(t, i));
        assert((step[2].demand)(t, i));
        assert((step[3].demand)(t, i));
        assert((step[4].demand)(t, i));
        assert((step[5].demand)(t, i));
        assert((step[6].demand)(t, i));
        assert((step[7].demand)(t, i));
        assert((step[8].demand)(t, i));
        assert((memory[0].demand)(t, i));
        assert((log[0].demand)(t, i));
        assert((calldata[0].demand)(t, i));
    }
}

/// The gates that configuring the circuit adds let exactly those rows pass that are part of a copy
/// or padding.
///
/// Of an enabled row with the tag `tag`, above a row that does not end an event or has the tag
/// `below`:
/// - the marks of the first and the last row are truth values, the former in read rows and the
///   latter in write rows only;
/// - two rows below a row of an event the row is enabled, and unless the event ends it goes on
///   with the identifier, the tag and the source end, one address on;
/// - the counter of accesses grows by the row's own and what is left of them shrinks by it, down
///   to the last row's own, and the table's accumulator stays as it is;
/// - at the end of a copy to a bytecode from memory or to an accumulator, the accumulated value
///   is the one in the table;
/// - only the identifier of a code hash has a second limb.
///
/// Of a read row and the write row below it:
/// - the bytes left count down to one;
/// - the value is copied, and accumulated from the first one on;
/// - the read is padding, and zero, if its address is not below the source's end, and the write
///   is never padding.
pub proof fn gates_hold_exactly(
    meta: &mut ConstraintSystem,
    args: CopyCircuitConfigArgs,
    config: CopyCircuitConfig,
    t: Trace,
    i: int,
    tag: CopyDataType,
    below: CopyDataType,
)
    requires
        call_ensures(CopyCircuitConfig::new, (meta, args), config),
        t.wf(),
        args.copy_table.tag.holds_tag(t, i, tag),
        t.advice_at(config.is_last, i + 1) == 0 || args.copy_table.tag.holds_tag(t, i + 1, below),
    ensures
        ({
            let gates = final(meta).gates@.skip(old(meta).gates@.len() as int);
            forall|g: int, j: int|
                0 <= g < gates.len() && 0 <= j < gates[g].constraints@.len() ==> (
                #[trigger] gates[g].constraints@[j]).poly.eval(t, i) == 0
        }) <==> {
            let p = t.modulus;
            let table = args.copy_table;
            let is_step = t.selected(config.q_step, i);
            let first = t.advice_at(table.is_first, i);
            let last = t.advice_at(config.is_last, i);
            let last_below = t.advice_at(config.is_last, i + 1);
            let pad = t.advice_at(config.is_pad, i);
            let is_rw = tag == CopyDataType::Memory || tag == CopyDataType::TxLog;
            let access = if is_rw {
                (1 - pad) % p
            } else {
                0
            };
            &&& t.fixed_at(args.q_enable, i) != 0 ==> {
                &&& first == 0 || first == 1
                &&& last == 0 || last == 1
                &&& !is_step ==> first == 0
                &&& is_step ==> last == 0
                &&& tag != CopyDataType::Padding ==> t.fixed_at(args.q_enable, i + 2) == 1
                &&& tag != CopyDataType::Padding && last_below != 1 - last ==> {
                    let bits = table.tag.bits@;
                    &&& t.advice_at(table.id.lo, i + 2) == t.advice_at(table.id.lo, i)
                    &&& t.advice_at(table.id.hi, i + 2) == t.advice_at(table.id.hi, i)
                    &&& (4 * t.advice_at(bits[0], i + 2) + 2 * t.advice_at(bits[1], i + 2)
                        + t.advice_at(bits[2], i + 2)) % p == tag.spec_code()
                    &&& t.advice_at(table.addr, i + 2) == (t.advice_at(table.addr, i) + 1) % p
                    &&& t.advice_at(table.src_addr_end, i + 2) == t.advice_at(table.src_addr_end, i)
                }
                &&& last == 0 ==> {
                    &&& t.advice_at(table.rw_counter, i + 1) == (t.advice_at(table.rw_counter, i)
                        + access) % p
                    &&& t.advice_at(table.rwc_inc_left, i + 1) == (t.advice_at(
                        table.rwc_inc_left,
                        i,
                    ) - access) % p
                    &&& t.advice_at(table.rlc_acc, i + 1) == t.advice_at(table.rlc_acc, i)
                }
                &&& last == 1 ==> t.advice_at(table.rwc_inc_left, i) == access
                &&& last_below != 0 && ((tag == CopyDataType::Memory && below
                    == CopyDataType::Bytecode) || below == CopyDataType::RlcAcc) ==> t.advice_at(
                    config.value_acc_rlc,
                    i + 1,
                ) == t.advice_at(table.rlc_acc, i + 1)
                &&& (is_rw || tag == CopyDataType::TxCalldata) && pad != 1 ==> t.advice_at(
                    table.id.hi,
                    i,
                ) == 0
            }
            &&& is_step ==> {
                &&& last_below != 0 ==> t.advice_at(table.bytes_left, i) == 1
                &&& last_below != 1 && tag != CopyDataType::Padding ==> t.advice_at(
                    table.bytes_left,
                    i,
                ) == (t.advice_at(table.bytes_left, i + 2) + 1) % p
                &&& first != 0 ==> t.advice_at(config.value_acc_rlc, i) == t.advice_at(
                    config.value,
                    i,
                )
                &&& t.advice_at(config.value, i + 1) == t.advice_at(config.value, i)
                &&& t.advice_at(config.value_acc_rlc, i + 1) == t.advice_at(config.value_acc_rlc, i)
                &&& last_below != 1 && pad != 1 ==> t.advice_at(config.value_acc_rlc, i + 2) == ((
                t.advice_at(config.value_acc_rlc, i) * args.challenges.keccak_input.eval(t, i)) % p
                    + t.advice_at(config.value, i + 2)) % p
                &&& pad != 0 ==> t.advice_at(config.value, i) == 0
                &&& pad == (1 - t.advice_at(config.addr_lt_addr_end.lt, i)) % p
                &&& t.advice_at(config.is_pad, i + 1) == 0
            }
        },
{
    let gates: Seq<Gate> = final(meta).gates@.skip(old(meta).gates@.len() as int);
    let r = args.challenges.keccak_input;
    gates_demand_what_they_state(config, r, gates, t, i);
    lemma_row(config, r, t, i, tag, below);
    if gates_met(config, r, t, i) {
        assert forall|g: int, j: int|
            0 <= g < gates.len() && 0 <= j < gates[g].constraints@.len() implies (
        #[trigger] gates[g].constraints@[j]).poly.eval(t, i) == 0 by {
            assert(gates[g].constraints@[j].holds(t, i));
        }
    }
}

} // verus!
