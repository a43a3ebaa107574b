//! The tables that the copy circuit fills in or looks things up in.
use crate::binary_number::BinaryNumberConfig;
use crate::constraint_builder::Word;
use crate::constraint_system::NamedColumn;
use crate::expression::{any_query, AdviceColumn, AnyColumn, Expression, Rotation};
use vstd::prelude::*;

verus! {

/// The table of transactions.
#[derive(Clone, Debug, PartialEq, Eq)]
pub struct TxTable {
    pub columns: Vec<NamedColumn>,
    /// The number that marks a byte of calldata.
    pub call_data_tag: u64,
}

/// The table of memory, log and other accesses.
#[derive(Clone, Debug, PartialEq, Eq)]
pub struct RwTable {
    pub columns: Vec<NamedColumn>,
    /// The number that marks an access to memory.
    pub memory_target: u64,
    /// The number that marks an access to a log.
    pub tx_log_target: u64,
}

/// The table of bytecodes.
#[derive(Clone, Debug, PartialEq, Eq)]
pub struct BytecodeTable {
    pub columns: Vec<NamedColumn>,
    /// The number that marks a byte of code.
    pub byte_tag: u64,
}

/// The columns of the copy circuit that other circuits look copy events up in.
#[derive(Clone, Debug, PartialEq, Eq)]
pub struct CopyTable {
    /// Whether the row is the first of its copy event.
    pub is_first: AdviceColumn,
    /// What is read from or written to: a call, a transaction or a code hash.
    pub id: Word<AdviceColumn>,
    /// The address of the byte.
    pub addr: AdviceColumn,
    /// The end of the source: reads from here on are padding.
    pub src_addr_end: AdviceColumn,
    /// How many bytes are left to copy, this one included.
    pub bytes_left: AdviceColumn,
    /// The random linear combination of all bytes of the event.
    pub rlc_acc: AdviceColumn,
    /// The counter of memory and log accesses.
    pub rw_counter: AdviceColumn,
    /// By how much the counter still grows until the end of the event.
    pub rwc_inc_left: AdviceColumn,
    /// Where the byte is read from or written to.
    pub tag: BinaryNumberConfig,
    /// The names that the columns are reported under.
    pub annotations: Vec<NamedColumn>,
}

impl CopyTable {
    /// The columns that a row of the table fills in, without those of the tag.
    pub open spec fn spec_advice_columns(self) -> Seq<AdviceColumn> {
        seq![
            self.is_first,
            self.id.lo,
            self.id.hi,
            self.addr,
            self.src_addr_end,
            self.bytes_left,
            self.rlc_acc,
            self.rw_counter,
            self.rwc_inc_left,
        ]
    }

    /// The columns that a row of the table fills in, without those of the tag.
    pub fn advice_columns(&self) -> (columns: Vec<AdviceColumn>)
        ensures
            columns@ == self.spec_advice_columns(),
    {
        let columns = vec![
            self.is_first,
            self.id.lo,
            self.id.hi,
            self.addr,
            self.src_addr_end,
            self.bytes_left,
            self.rlc_acc,
            self.rw_counter,
            self.rwc_inc_left,
        ];
        assert(columns@ =~= self.spec_advice_columns());
        columns
    }
}

/// The columns of a table, without their names.
pub open spec fn columns_of(columns: Seq<NamedColumn>) -> Seq<AnyColumn> {
    columns.map_values(|c: NamedColumn| c.column)
}

/// The current row of a table.
pub fn table_exprs(columns: &Vec<NamedColumn>) -> (exprs: Vec<Expression>)
    ensures
        exprs@.len() == columns@.len(),
        forall|k: int|
            0 <= k < columns@.len() ==> #[trigger] exprs@[k] == any_query(
                columns@[k].column,
                Rotation(0),
            ),
{
    let mut exprs: Vec<Expression> = Vec::new();
    let mut k: usize = 0;
    while k < columns.len()
        invariant
            k <= columns@.len(),
            exprs@.len() == k,
            forall|j: int|
                0 <= j < k ==> #[trigger] exprs@[j] == any_query(columns@[j].column, Rotation(0)),
        decreases columns@.len() - k,
    {
        exprs.push(Expression::query_any(columns[k].column, Rotation::cur()));
        k += 1;
    }
    exprs
}

/// The random values that are drawn once the first phase is fixed.
#[derive(Clone, Copy, Debug, PartialEq, Eq)]
pub struct Challenges<T> {
    pub keccak_input: T,
}

impl Challenges<Expression> {
    /// The base of the random linear combination of the copied bytes.
    pub fn keccak_input(&self) -> (e: Expression)
        ensures
            e == self.keccak_input,
    {
        self.keccak_input.clone()
    }
}

} // verus!
