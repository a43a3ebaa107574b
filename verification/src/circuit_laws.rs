//! How a block, its circuit and the rows that the circuit needs go together.
use crate::assignment::{
    event_views, rows_match, rows_needed, sources_addressable, CopyEvent, CopyRow,
};
use crate::circuit::{Block, CopyCircuit, ExternalData};
use crate::layout::{minimum_region_fits, region_fits};
use vstd::pervasive::{cloned, strictly_cloned};
use vstd::prelude::*;

verus! {

/// A circuit that is made from events holds them, for the given number of rows, and nothing for
/// the tables.
pub proof fn circuits_hold_their_events<Tx, Rws: Default, Codes: Default>(
    copy_events: Vec<CopyEvent>,
    max_copy_rows: usize,
    circuit: CopyCircuit<Tx, Rws, Codes>,
)
    requires
        call_ensures(
            CopyCircuit::<Tx, Rws, Codes>::new,
            (copy_events, max_copy_rows),
            circuit,
        ),
    ensures
        circuit.copy_events@ == copy_events@,
        circuit.max_copy_rows == max_copy_rows,
        circuit.external_data.max_txs == 0,
        circuit.external_data.max_calldata == 0,
        circuit.external_data.txs@.len() == 0,
        circuit.external_data.max_rws == 0,
        call_ensures(Rws::default, (), circuit.external_data.rws),
        call_ensures(Codes::default, (), circuit.external_data.bytecodes),
{
}

/// A circuit is by default one without events, rows and external data.
pub proof fn default_circuits_are_empty<Tx, Rws: Default, Codes: Default>(
    circuit: CopyCircuit<Tx, Rws, Codes>,
    data: ExternalData<Tx, Rws, Codes>,
)
    requires
        call_ensures(CopyCircuit::<Tx, Rws, Codes>::default, (), circuit),
        call_ensures(ExternalData::<Tx, Rws, Codes>::default, (), data),
    ensures
        circuit.copy_events@.len() == 0,
        circuit.max_copy_rows == 0,
        circuit.external_data.txs@.len() == 0,
        circuit.external_data.max_txs == 0,
        circuit.external_data.max_calldata == 0,
        circuit.external_data.max_rws == 0,
        call_ensures(Rws::default, (), circuit.external_data.rws),
        call_ensures(Codes::default, (), circuit.external_data.bytecodes),
        data.txs@.len() == 0,
        data.max_txs == 0,
        data.max_calldata == 0,
        data.max_rws == 0,
        call_ensures(Rws::default, (), data.rws),
        call_ensures(Codes::default, (), data.bytecodes),
{
}

/// A circuit that is made with external data holds that too, and is otherwise the same as one
/// that is made without.
pub proof fn external_data_is_added<Tx, Rws: Default, Codes: Default>(
    copy_events: Vec<CopyEvent>,
    max_copy_rows: usize,
    external_data: ExternalData<Tx, Rws, Codes>,
    circuit: CopyCircuit<Tx, Rws, Codes>,
    bare: CopyCircuit<Tx, Rws, Codes>,
)
    requires
        call_ensures(
            CopyCircuit::<Tx, Rws, Codes>::new_with_external_data,
            (copy_events, max_copy_rows, external_data),
            circuit,
        ),
        call_ensures(CopyCircuit::<Tx, Rws, Codes>::new, (copy_events, max_copy_rows), bare),
    ensures
        circuit.external_data == external_data,
        circuit.copy_events@ == bare.copy_events@,
        circuit.max_copy_rows == bare.max_copy_rows,
{
}

/// The circuit of a block has the block's events and sizes, and clones of what the block has for
/// the tables; without external data it has the same events and rows, and nothing for the tables.
pub proof fn blocks_make_circuits<Tx: Clone, Rws: Clone + Default, Codes: Clone + Default>(
    block: Block<Tx, Rws, Codes>,
    circuit: CopyCircuit<Tx, Rws, Codes>,
    bare: CopyCircuit<Tx, Rws, Codes>,
    k: int,
)
    requires
        call_ensures(CopyCircuit::<Tx, Rws, Codes>::new_from_block, (&block,), circuit),
        call_ensures(CopyCircuit::<Tx, Rws, Codes>::new_from_block_no_external, (&block,), bare),
    ensures
        circuit.copy_events@.len() == block.copy_events@.len(),
        bare.copy_events@.len() == block.copy_events@.len(),
        0 <= k < block.copy_events@.len() ==> {
            let event = block.copy_events@[k];
            let copy = circuit.copy_events@[k];
            let other = bare.copy_events@[k];
            &&& copy.src_addr == event.src_addr
            &&& copy.src_addr_end == event.src_addr_end
            &&& copy.bytes@ == event.bytes@
            &&& other.src_addr == event.src_addr
            &&& other.src_addr_end == event.src_addr_end
            &&& other.bytes@ == event.bytes@
        },
        circuit.max_copy_rows == block.circuits_params.max_copy_rows,
        bare.max_copy_rows == block.circuits_params.max_copy_rows,
        circuit.external_data.max_txs == block.circuits_params.max_txs,
        circuit.external_data.max_calldata == block.circuits_params.max_calldata,
        circuit.external_data.max_rws == block.circuits_params.max_rws,
        circuit.external_data.txs@.len() == block.txs@.len(),
        0 <= k < block.txs@.len() ==> cloned(block.txs@[k], circuit.external_data.txs@[k]),
        strictly_cloned(block.rws, circuit.external_data.rws),
        strictly_cloned(block.bytecodes, circuit.external_data.bytecodes),
        bare.external_data.max_txs == 0,
        bare.external_data.max_calldata == 0,
        bare.external_data.txs@.len() == 0,
        bare.external_data.max_rws == 0,
        call_ensures(Rws::default, (), bare.external_data.rws),
        call_ensures(Codes::default, (), bare.external_data.bytecodes),
{
    if 0 <= k < block.copy_events@.len() {
        let events = event_views(block.copy_events@);
        assert(event_views(circuit.copy_events@)[k] == events[k]);
        assert(event_views(bare.copy_events@)[k] == events[k]);
    }
    assert(event_views(circuit.copy_events@).len() == block.copy_events@.len());
    assert(event_views(bare.copy_events@).len() == block.copy_events@.len());
}

/// A block without events needs four rows, and each further event needs two more for each of its
/// bytes; how many rows there are is up to the block's parameters.
pub proof fn rows_of_a_block_add_up<Tx, Rws, Codes>(
    block: Block<Tx, Rws, Codes>,
    larger: Block<Tx, Rws, Codes>,
    event: CopyEvent,
    rows: (usize, usize),
    larger_rows: (usize, usize),
)
    requires
        call_ensures(CopyCircuit::<Tx, Rws, Codes>::min_num_rows_block, (&block,), rows),
        call_ensures(CopyCircuit::<Tx, Rws, Codes>::min_num_rows_block, (&larger,), larger_rows),
        larger.copy_events@ == block.copy_events@.push(event),
    ensures
        block.copy_events@.len() == 0 ==> rows.0 == 4,
        larger_rows.0 == rows.0 + 2 * event.bytes@.len(),
        rows.1 == block.circuits_params.max_copy_rows,
{
    let n = block.copy_events@.len();
    lemma_same_rows(block.copy_events@, larger.copy_events@, n);
    assert(rows_needed(larger.copy_events@, n + 1) == rows.0 - 4 + 2
        * event.bytes@.len());
}

/// The rows of the first events depend on these alone.
proof fn lemma_same_rows(left: Seq<CopyEvent>, right: Seq<CopyEvent>, n: nat)
    requires
        n <= left.len(),
        n <= right.len(),
        forall|k: int| 0 <= k < n ==> left[k] == right[k],
    ensures
        rows_needed(left, n) == rows_needed(right, n),
    decreases n,
{
    if n > 0 {
        lemma_same_rows(left, right, (n - 1) as nat);
    }
}

/// The number of rows that a block needs is the least with which the block's events can be
/// assigned.
pub proof fn rows_of_a_block_are_least<Tx, Rws, Codes, V>(
    block: Block<Tx, Rws, Codes>,
    needed: (usize, usize),
    rows: Seq<Vec<CopyRow<V>>>,
    max_copy_rows: int,
)
    requires
        call_ensures(CopyCircuit::<Tx, Rws, Codes>::min_num_rows_block, (&block,), needed),
        rows_match(block.copy_events@, rows),
        sources_addressable(block.copy_events@),
    ensures
        region_fits(block.copy_events@, rows, needed.0 as int),
        region_fits(block.copy_events@, rows, max_copy_rows) ==> needed.0 <= max_copy_rows,
{
    minimum_region_fits(block.copy_events@, rows, max_copy_rows);
}

} // verus!
