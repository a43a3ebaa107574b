//! The constraints that a circuit consists of, and how they are put together.
use crate::expression::{AdviceColumn, AnyColumn, Expression, Selector};
use crate::field::{field_mul, is_truth_value};
use crate::trace::Trace;
use vstd::arithmetic::power2::pow2;
use vstd::prelude::*;

verus! {

/// A polynomial that has to vanish in every row.
#[derive(Debug, PartialEq, Eq)]
pub struct Constraint {
    pub name: &'static str,
    pub poly: Expression,
}

impl Constraint {
    /// Whether the polynomial vanishes at `row`.
    pub open spec fn holds(self, trace: Trace, row: int) -> bool {
        self.poly.eval(trace, row) == 0
    }
}

/// A named group of constraints.
#[derive(Debug, PartialEq, Eq)]
pub struct Gate {
    pub name: &'static str,
    pub constraints: Vec<Constraint>,
}

/// What one constraint demands of the rows from `row` on, in words of the cells' values.
pub struct Clause {
    pub name: Seq<char>,
    pub demand: spec_fn(Trace, int) -> bool,
}

/// Whether `constraint` goes by the clause's name and holds exactly where the clause's demand
/// is met.
pub open spec fn constraint_states(constraint: Constraint, clause: Clause) -> bool {
    &&& constraint.name@ == clause.name
    &&& forall|t: Trace, i: int|
        t.wf() ==> (#[trigger] constraint.holds(t, i) <==> (clause.demand)(t, i))
}

/// Whether `gate` goes by `name` and consists of one constraint for each clause, in order.
pub open spec fn gate_states(gate: Gate, name: Seq<char>, clauses: Seq<Clause>) -> bool {
    &&& gate.name@ == name
    &&& gate.constraints@.len() == clauses.len()
    &&& forall|j: int|
        0 <= j < clauses.len() ==> constraint_states(#[trigger] gate.constraints@[j], clauses[j])
}

/// Whether every clause's demand is met at `row`.
pub open spec fn all_met(clauses: Seq<Clause>, trace: Trace, row: int) -> bool {
    forall|j: int| 0 <= j < clauses.len() ==> (#[trigger] clauses[j].demand)(trace, row)
}

/// Whether all constraints stay between `low` and `high` rows below the current one.
pub open spec fn constraints_within(constraints: Seq<Constraint>, low: int, high: int) -> bool {
    forall|j: int|
        0 <= j < constraints.len() ==> (#[trigger] constraints[j]).poly.rotations_within(low, high)
}

/// The demand that a tuple of expressions occurs in some row of a table.
#[derive(Debug, PartialEq, Eq)]
pub struct Lookup {
    pub name: &'static str,
    /// Each expression with that of the table column it is looked up in.
    pub entries: Vec<(Expression, Expression)>,
}

/// Whether `lookup` goes by `name` and looks up, in the columns of `table`, the arguments
/// scaled by `condition`.
///
/// Arguments beyond the table's last column, and columns beyond the last argument, take no part.
pub open spec fn lookup_states(
    lookup: Lookup,
    name: Seq<char>,
    condition: spec_fn(Trace, int) -> int,
    arguments: Seq<spec_fn(Trace, int) -> int>,
    table: Seq<AnyColumn>,
) -> bool {
    &&& lookup.name@ == name
    &&& lookup.entries@.len() == if arguments.len() <= table.len() {
        arguments.len()
    } else {
        table.len()
    }
    &&& forall|k: int, t: Trace, i: int|
        0 <= k < lookup.entries@.len() && t.wf() ==> #[trigger] lookup.entries@[k].0.eval(t, i)
            == field_mul(t.modulus, condition(t, i), (arguments[k])(t, i))
    &&& forall|k: int, t: Trace, i: int|
        0 <= k < lookup.entries@.len() ==> #[trigger] lookup.entries@[k].1.eval(t, i) == t.any_at(
            table[k],
            i,
        )
}

/// Whether all expressions of a lookup stay between `low` and `high` rows below the current one.
pub open spec fn entries_within(
    entries: Seq<(Expression, Expression)>,
    low: int,
    high: int,
) -> bool {
    forall|k: int|
        #![trigger entries[k]]
        0 <= k < entries.len() ==> entries[k].0.rotations_within(low, high)
            && entries[k].1.rotations_within(low, high)
}

/// When a column is filled in: before or after the challenges are known.
#[derive(Clone, Copy, Debug, PartialEq, Eq, Structural)]
pub enum Phase {
    First,
    Second,
}

/// Whether a selector may occur in lookups.
#[derive(Clone, Copy, Debug, PartialEq, Eq, Structural)]
pub enum SelectorKind {
    Simple,
    Complex,
}

/// A comparison of two numbers of `n_bytes` bytes each, in the rows where `q_enable` is not zero.
#[derive(Debug, PartialEq, Eq)]
pub struct Comparison {
    pub q_enable: Expression,
    pub lhs: Expression,
    pub rhs: Expression,
    pub n_bytes: usize,
    /// Holds one where `lhs` is less than `rhs`, and zero elsewhere.
    pub lt: AdviceColumn,
}

impl Comparison {
    /// Whether, if the comparison is made at `row`, its outcome is a truth value and, for numbers
    /// of `n_bytes` bytes, the right one.
    pub open spec fn holds(self, trace: Trace, row: int) -> bool {
        let range = pow2(8 * self.n_bytes as nat);
        let lt = trace.advice_at(self.lt, row);
        let lhs = self.lhs.eval(trace, row);
        let rhs = self.rhs.eval(trace, row);
        self.q_enable.eval(trace, row) != 0 ==> {
            &&& is_truth_value(lt)
            &&& lhs < range && rhs < range ==> (lt == 1 <==> lhs < rhs)
        }
    }
}

/// A column together with the name that it is reported under.
#[derive(Clone, Copy, Debug, PartialEq, Eq)]
pub struct NamedColumn {
    pub column: AnyColumn,
    pub name: &'static str,
}

/// The columns of a circuit and everything that is demanded of them.
#[derive(Debug, PartialEq, Eq)]
pub struct ConstraintSystem {
    /// The phase of each advice column.
    pub advice_phases: Vec<Phase>,
    /// The kind of each selector.
    pub selectors: Vec<SelectorKind>,
    pub gates: Vec<Gate>,
    pub lookups: Vec<Lookup>,
    pub comparisons: Vec<Comparison>,
    pub annotations: Vec<NamedColumn>,
}

impl ConstraintSystem {
    /// Adds a selector that may occur in lookups.
    pub fn complex_selector(&mut self) -> (selector: Selector)
        ensures
            selector.index == old(self).selectors@.len(),
            final(self).selectors@ == old(self).selectors@.push(SelectorKind::Complex),
            final(self).advice_phases == old(self).advice_phases,
            final(self).gates == old(self).gates,
            final(self).lookups == old(self).lookups,
            final(self).comparisons == old(self).comparisons,
            final(self).annotations == old(self).annotations,
    {
        let selector = Selector { index: self.selectors.len() };
        self.selectors.push(SelectorKind::Complex);
        selector
    }

    /// Adds an advice column of the first phase.
    pub fn advice_column(&mut self) -> (column: AdviceColumn)
        ensures
            column.index == old(self).advice_phases@.len(),
            final(self).advice_phases@ == old(self).advice_phases@.push(Phase::First),
            final(self).selectors == old(self).selectors,
            final(self).gates == old(self).gates,
            final(self).lookups == old(self).lookups,
            final(self).comparisons == old(self).comparisons,
            final(self).annotations == old(self).annotations,
    {
        self.advice_column_in(Phase::First)
    }

    /// Adds an advice column of the given phase.
    pub fn advice_column_in(&mut self, phase: Phase) -> (column: AdviceColumn)
        ensures
            column.index == old(self).advice_phases@.len(),
            final(self).advice_phases@ == old(self).advice_phases@.push(phase),
            final(self).selectors == old(self).selectors,
            final(self).gates == old(self).gates,
            final(self).lookups == old(self).lookups,
            final(self).comparisons == old(self).comparisons,
            final(self).annotations == old(self).annotations,
    {
        let column = AdviceColumn { index: self.advice_phases.len() };
        self.advice_phases.push(phase);
        column
    }

    /// Names the columns of a lookup table.
    pub fn annotate_columns(&mut self, columns: &Vec<NamedColumn>)
        ensures
            final(self).annotations@ == old(self).annotations@ + columns@,
            final(self).advice_phases == old(self).advice_phases,
            final(self).selectors == old(self).selectors,
            final(self).gates == old(self).gates,
            final(self).lookups == old(self).lookups,
            final(self).comparisons == old(self).comparisons,
    {
        let mut k: usize = 0;
        while k < columns.len()
            invariant
                k <= columns@.len(),
                self.annotations@ == old(self).annotations@ + columns@.take(k as int),
                self.advice_phases == old(self).advice_phases,
                self.selectors == old(self).selectors,
                self.gates == old(self).gates,
                self.lookups == old(self).lookups,
                self.comparisons == old(self).comparisons,
            decreases columns@.len() - k,
        {
            self.annotations.push(columns[k]);
            k += 1;
        }
        assert(columns@.take(k as int) == columns@);
    }

    /// Adds a gate.
    pub fn create_gate(&mut self, gate: Gate)
        requires
            gate.constraints@.len() > 0,
        ensures
            final(self).gates@ == old(self).gates@.push(gate),
            final(self).advice_phases == old(self).advice_phases,
            final(self).selectors == old(self).selectors,
            final(self).lookups == old(self).lookups,
            final(self).comparisons == old(self).comparisons,
            final(self).annotations == old(self).annotations,
    {
        self.gates.push(gate);
    }

    /// Adds a lookup.
    pub fn lookup_any(&mut self, lookup: Lookup)
        ensures
            final(self).lookups@ == old(self).lookups@.push(lookup),
            final(self).advice_phases == old(self).advice_phases,
            final(self).selectors == old(self).selectors,
            final(self).gates == old(self).gates,
            final(self).comparisons == old(self).comparisons,
            final(self).annotations == old(self).annotations,
    {
        self.lookups.push(lookup);
    }

    /// Adds a comparison.
    pub fn compare(&mut self, comparison: Comparison)
        ensures
            final(self).comparisons@ == old(self).comparisons@.push(comparison),
            final(self).advice_phases == old(self).advice_phases,
            final(self).selectors == old(self).selectors,
            final(self).gates == old(self).gates,
            final(self).lookups == old(self).lookups,
            final(self).annotations == old(self).annotations,
    {
        self.comparisons.push(comparison);
    }
}

} // verus!
