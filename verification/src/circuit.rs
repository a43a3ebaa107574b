//! The copy circuit of a block.
use crate::assignment::{
    count_rows, event_views, rows_match, rows_needed, sources_addressable, CopyEvent, CopyRow,
    DISABLED_ROWS, UNUSED_ROWS,
};
use crate::config::CopyCircuitConfig;
use crate::region::{Layouter, LayouterAction};
use vstd::pervasive::{cloned, strictly_cloned};
use vstd::prelude::*;

verus! {

/// Struct for external data, specifies values for related lookup tables
#[derive(Clone, Debug)]
pub struct ExternalData<Tx, Rws, Codes> {
    /// TxCircuit -> max_txs
    pub max_txs: usize,
    /// TxCircuit -> max_calldata
    pub max_calldata: usize,
    /// TxCircuit -> txs
    pub txs: Vec<Tx>,
    /// StateCircuit -> max_rws
    pub max_rws: usize,
    /// StateCircuit -> rws
    pub rws: Rws,
    /// BytecodeCircuit -> bytecodes
    pub bytecodes: Codes,
}

/// Whether there is no external data: no transactions, and accesses and codes as they are by
/// default.
pub open spec fn no_external_data<Tx, Rws: Default, Codes: Default>(
    data: ExternalData<Tx, Rws, Codes>,
) -> bool {
    &&& data.max_txs == 0
    &&& data.max_calldata == 0
    &&& data.txs@ == Seq::<Tx>::empty()
    &&& data.max_rws == 0
    &&& call_ensures(Rws::default, (), data.rws)
    &&& call_ensures(Codes::default, (), data.bytecodes)
}

impl<Tx, Rws: Default, Codes: Default> Default for ExternalData<Tx, Rws, Codes> {
    fn default() -> (data: Self)
        ensures
            no_external_data(data),
    {
        ExternalData {
            max_txs: 0,
            max_calldata: 0,
            txs: Vec::new(),
            max_rws: 0,
            rws: Rws::default(),
            bytecodes: Codes::default(),
        }
    }
}

/// The sizes that the circuits are built for.
#[derive(Clone, Copy, Debug, PartialEq, Eq, Structural)]
pub struct CircuitsParams {
    pub max_copy_rows: usize,
    pub max_txs: usize,
    pub max_calldata: usize,
    pub max_rws: usize,
}

/// What a block's proof is made from.
#[derive(Debug)]
pub struct Block<Tx, Rws, Codes> {
    pub copy_events: Vec<CopyEvent>,
    pub circuits_params: CircuitsParams,
    pub txs: Vec<Tx>,
    pub rws: Rws,
    pub bytecodes: Codes,
}

/// Copy Circuit
#[derive(Clone, Debug)]
pub struct CopyCircuit<Tx, Rws, Codes> {
    /// Copy events
    pub copy_events: Vec<CopyEvent>,
    /// Max number of rows in copy circuit
    pub max_copy_rows: usize,
    /// Data for external lookup tables
    pub external_data: ExternalData<Tx, Rws, Codes>,
}

impl<Tx, Rws: Default, Codes: Default> Default for CopyCircuit<Tx, Rws, Codes> {
    fn default() -> (circuit: Self)
        ensures
            circuit.copy_events@ == Seq::<CopyEvent>::empty(),
            circuit.max_copy_rows == 0,
            no_external_data(circuit.external_data),
    {
        CopyCircuit::new(Vec::new(), 0)
    }
}

/// A copy of a list of copy events.
fn clone_events(copy_events: &Vec<CopyEvent>) -> (copy: Vec<CopyEvent>)
    ensures
        event_views(copy@) == event_views(copy_events@),
{
    let copy = copy_events.clone();
    assert forall|k: int| 0 <= k < copy@.len() implies #[trigger] copy@[k]@ == copy_events@[k]@ by {
        assert(cloned(copy_events@[k], copy@[k]));
    }
    assert(event_views(copy@) =~= event_views(copy_events@));
    copy
}

impl<Tx, Rws, Codes> CopyCircuit<Tx, Rws, Codes> {
    /// Return a new CopyCircuit
    pub fn new(copy_events: Vec<CopyEvent>, max_copy_rows: usize) -> (circuit: Self) where
        Rws: Default,
        Codes: Default,

        ensures
            circuit.copy_events == copy_events,
            circuit.max_copy_rows == max_copy_rows,
            no_external_data(circuit.external_data),
    {
        CopyCircuit { copy_events, max_copy_rows, external_data: ExternalData::default() }
    }

    /// Return a new CopyCircuit with external data
    pub fn new_with_external_data(
        copy_events: Vec<CopyEvent>,
        max_copy_rows: usize,
        external_data: ExternalData<Tx, Rws, Codes>,
    ) -> (circuit: Self)
        ensures
            circuit.copy_events == copy_events,
            circuit.max_copy_rows == max_copy_rows,
            circuit.external_data == external_data,
    {
        CopyCircuit { copy_events, max_copy_rows, external_data }
    }

    /// Return a new CopyCircuit from a block without the external data required
    /// to assign lookup tables.  This constructor is only suitable to be
    /// used by the SuperCircuit, which already assigns the external lookup
    /// tables.
    pub fn new_from_block_no_external(block: &Block<Tx, Rws, Codes>) -> (circuit: Self) where
        Rws: Default,
        Codes: Default,

        ensures
            event_views(circuit.copy_events@) == event_views(block.copy_events@),
            circuit.max_copy_rows == block.circuits_params.max_copy_rows,
            no_external_data(circuit.external_data),
    {
        Self::new(clone_events(&block.copy_events), block.circuits_params.max_copy_rows)
    }

    /// The number of rows at the end of the circuit that cannot be used.
    pub fn unusable_rows() -> (rows: usize)
        ensures
            rows == 6,
    {
        // No column queried at more than 3 distinct rotations, so returns 6 as
        // minimum unusable rows.
        6
    }

    /// Return a new CopyCircuit from a block
    pub fn new_from_block(block: &Block<Tx, Rws, Codes>) -> (circuit: Self) where
        Tx: Clone,
        Rws: Clone,
        Codes: Clone,

        ensures
            event_views(circuit.copy_events@) == event_views(block.copy_events@),
            circuit.max_copy_rows == block.circuits_params.max_copy_rows,
            circuit.external_data.max_txs == block.circuits_params.max_txs,
            circuit.external_data.max_calldata == block.circuits_params.max_calldata,
            circuit.external_data.txs@.len() == block.txs@.len(),
            forall|k: int|
                0 <= k < block.txs@.len() ==> cloned(
                    block.txs@[k],
                    #[trigger] circuit.external_data.txs@[k],
                ),
            circuit.external_data.max_rws == block.circuits_params.max_rws,
            strictly_cloned(block.rws, circuit.external_data.rws),
            strictly_cloned(block.bytecodes, circuit.external_data.bytecodes),
    {
        Self::new_with_external_data(
            clone_events(&block.copy_events),
            block.circuits_params.max_copy_rows,
            ExternalData {
                max_txs: block.circuits_params.max_txs,
                max_calldata: block.circuits_params.max_calldata,
                txs: block.txs.clone(),
                max_rws: block.circuits_params.max_rws,
                rws: block.rws.clone(),
                bytecodes: block.bytecodes.clone(),
            },
        )
    }

    /// Return the minimum number of rows required to prove the block
    pub fn min_num_rows_block(block: &Block<Tx, Rws, Codes>) -> (rows: (usize, usize))
        requires
            rows_needed(block.copy_events@, block.copy_events@.len()) + DISABLED_ROWS + UNUSED_ROWS
                <= usize::MAX,
        ensures
            rows.0 == rows_needed(block.copy_events@, block.copy_events@.len()) + DISABLED_ROWS
                + UNUSED_ROWS,
            rows.1 == block.circuits_params.max_copy_rows,
    {
        (
            count_rows(&block.copy_events) + DISABLED_ROWS + UNUSED_ROWS,
            block.circuits_params.max_copy_rows,
        )
    }

    /// Make the assignments to the CopyCircuit
    pub fn synthesize_sub<V: Copy>(
        &self,
        config: &CopyCircuitConfig,
        rows: &Vec<Vec<CopyRow<V>>>,
        layouter: &mut Layouter<V>,
    )
        requires
            rows_match(self.copy_events@, rows@),
            sources_addressable(self.copy_events@),
            rows_needed(self.copy_events@, self.copy_events@.len()) + DISABLED_ROWS + UNUSED_ROWS
                <= self.max_copy_rows,
            self.max_copy_rows % 2 == 0,
        ensures
            final(layouter).actions@.len() == old(layouter).actions@.len() + 2,
            old(layouter).actions@.is_prefix_of(final(layouter).actions@),
            final(layouter).actions@[old(layouter).actions@.len() as int] == (
            LayouterAction::<V>::LoadLt { chip: config.addr_lt_addr_end }),
            final(layouter).actions@.last() matches LayouterAction::AssignRegion { name, region }
                && name@ == "assign copy table"@ && region.actions@ == config.layout_actions(
                self.copy_events@,
                rows@,
                self.max_copy_rows as int,
            ),
    {
        config.assign_copy_events(layouter, &self.copy_events, rows, self.max_copy_rows)
    }
}

} // verus!
