//! What configuring the circuit adds to a constraint system besides what the gates demand.
use crate::config::{CopyCircuitConfig, CopyCircuitConfigArgs};
use crate::constraint_system::{Constraint, ConstraintSystem, Phase, SelectorKind};
use crate::trace::Trace;
use vstd::prelude::*;

verus! {

/// Configuring the circuit adds one selector and six columns of its own, of which only the
/// accumulated value waits for the challenges, and leaves alone what was there before.
pub proof fn columns_are_added(
    meta: &mut ConstraintSystem,
    args: CopyCircuitConfigArgs,
    config: CopyCircuitConfig,
)
    requires
        call_ensures(CopyCircuitConfig::new, (meta, args), config),
    ensures
        ({
            let columns = old(meta).advice_phases@.len();
            let phases = final(meta).advice_phases@;
            &&& config.q_step.index == old(meta).selectors@.len()
            &&& final(meta).selectors@ == old(meta).selectors@.push(SelectorKind::Complex)
            &&& config.is_last.index == columns
            &&& config.value.index == columns + 1
            &&& config.value_acc_rlc.index == columns + 2
            &&& config.is_code.index == columns + 3
            &&& config.is_pad.index == columns + 4
            &&& config.addr_lt_addr_end.lt.index == columns + 5
            &&& phases.len() == columns + 6
            &&& forall|k: int|
                columns <= k < columns + 6 ==> (#[trigger] phases[k] == Phase::Second <==> k
                    == config.value_acc_rlc.index)
            &&& phases.take(columns as int) == old(meta).advice_phases@
        }),
        config.tx_table == args.tx_table,
        config.rw_table == args.rw_table,
        config.bytecode_table == args.bytecode_table,
        config.copy_table == args.copy_table,
        config.q_enable == args.q_enable,
        old(meta).gates@.is_prefix_of(final(meta).gates@),
        old(meta).lookups@.is_prefix_of(final(meta).lookups@),
        old(meta).comparisons@.is_prefix_of(final(meta).comparisons@),
        final(meta).annotations@ == old(meta).annotations@ + args.tx_table.columns@
            + args.rw_table.columns@ + args.bytecode_table.columns@ + args.copy_table.annotations@,
{
    let added = config.added_columns();
    let columns = old(meta).advice_phases@.len();
    assert(added[0] == config.is_last);
    assert(added[1] == config.value);
    assert(added[2] == config.value_acc_rlc);
    assert(added[3] == config.is_code);
    assert(added[4] == config.is_pad);
    assert(added[5] == config.addr_lt_addr_end.lt);
    assert(final(meta).advice_phases@.take(columns as int) =~= old(meta).advice_phases@);
}

/// The one comparison that is added is made in the read rows, where it tells whether the row's
/// address, a number of eight bytes, is below the row's source end.
pub proof fn addresses_are_compared(
    meta: &mut ConstraintSystem,
    args: CopyCircuitConfigArgs,
    config: CopyCircuitConfig,
    t: Trace,
    i: int,
)
    requires
        call_ensures(CopyCircuitConfig::new, (meta, args), config),
        t.wf(),
    ensures
        final(meta).comparisons@.len() == old(meta).comparisons@.len() + 1,
        ({
            let comparison = final(meta).comparisons@.last();
            &&& comparison.q_enable.eval(t, i) == if t.selected(config.q_step, i) {
                1int
            } else {
                0
            }
            &&& comparison.lhs.eval(t, i) == t.advice_at(args.copy_table.addr, i)
            &&& comparison.rhs.eval(t, i) == t.advice_at(args.copy_table.src_addr_end, i)
            &&& comparison.n_bytes == 8
            &&& comparison.lt == config.addr_lt_addr_end.lt
        }),
{
}

/// The names of constraints.
pub open spec fn names_of(constraints: Seq<Constraint>) -> Seq<Seq<char>> {
    constraints.map_values(|c: Constraint| c.name@)
}

/// The names that gates, constraints and lookups are reported under.
pub proof fn demands_are_named(
    meta: &mut ConstraintSystem,
    args: CopyCircuitConfigArgs,
    config: CopyCircuitConfig,
)
    requires
        call_ensures(CopyCircuitConfig::new, (meta, args), config),
    ensures
        final(meta).gates@.len() == old(meta).gates@.len() + 6,
        ({
            let gates = final(meta).gates@.skip(old(meta).gates@.len() as int);
            let lookups = final(meta).lookups@.skip(old(meta).lookups@.len() as int);
            &&& gates[0].name@ == "verify row"@
            &&& names_of(gates[0].constraints@) == seq![
                "is_first is boolean"@,
                "is_last is boolean"@,
                "is_first == 0 when q_step == 0"@,
                "is_last == 0 when q_step == 1"@,
                "the next step is enabled"@,
                "rows[0].id == rows[2].id"@,
                "rows[0].id == rows[2].id"@,
                "rows[0].tag == rows[2].tag"@,
                "rows[0].addr + 1 == rows[2].addr"@,
                "rows[0].src_addr_end == rows[2].src_addr_end for non-last step"@,
                "rows[0].rw_counter + rw_diff == rows[1].rw_counter"@,
                "rows[0].rwc_inc_left - rw_diff == rows[1].rwc_inc_left"@,
                "rows[0].rlc_acc == rows[1].rlc_acc"@,
                "rwc_inc_left == rw_diff for last row in the copy slot"@,
            ]
            &&& gates[1].name@
                == "Last Step (check value accumulator) Memory => Bytecode or RlcAcc"@
            &&& names_of(gates[1].constraints@) == seq!["value_acc_rlc == rlc_acc on the last row"@]
            &&& gates[2].name@ == "verify step (q_step == 1)"@
            &&& names_of(gates[2].constraints@) == seq![
                "bytes_left == 1 for last step"@,
                "bytes_left == bytes_left_next + 1 for non-last step"@,
                "value == value_acc_rlc at every first copy event"@,
                "write value == read value"@,
                "value_acc_rlc is same for read-write rows"@,
                "value_acc_rlc(2) == value_acc_rlc(0) * r + value(2)"@,
                "value == 0 when is_pad == 1 for read"@,
                "is_pad == 1 - (src_addr < src_addr_end) for read row"@,
                "is_pad == 0 for write row"@,
            ]
            &&& gates[3].name@ == "id_hi === 0 when Momory"@
            &&& names_of(gates[3].constraints@) == seq!["id_hi === 0"@]
            &&& gates[4].name@ == "id_hi === 0 when TxLog"@
            &&& names_of(gates[4].constraints@) == seq!["id_hi === 0"@]
            &&& gates[5].name@ == "id_hi === 0 when TxCalldata"@
            &&& names_of(gates[5].constraints@) == seq!["id_hi === 0"@]
            &&& lookups[0].name@ == "Memory lookup"@
            &&& lookups[1].name@ == "TxLog lookup"@
            &&& lookups[2].name@ == "Bytecode lookup"@
            &&& lookups[3].name@ == "Tx calldata lookup"@
        }),
{
    let gates = final(meta).gates@.skip(old(meta).gates@.len() as int);
    assert forall|g: int, j: int|
        0 <= g < 6 && 0 <= j < gates[g].constraints@.len() implies #[trigger] names_of(
        gates[g].constraints@,
    )[j] == gates[g].constraints@[j].name@ by {}
}

} // verus!
