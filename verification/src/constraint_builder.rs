//! Collects the constraints of one gate.
use crate::constraint_system::{constraints_within, Constraint, Gate};
use crate::expression::{not, Expression};
use crate::field::is_truth_value;
use crate::trace::Trace;
use vstd::prelude::*;

verus! {

/// Two limbs that make up one word.
#[derive(Clone, Copy, Debug, PartialEq, Eq)]
pub struct Word<T> {
    pub lo: T,
    pub hi: T,
}

/// The constraints gathered so far, and the condition that new ones are put under.
#[derive(Debug)]
pub struct BaseConstraintBuilder {
    pub constraints: Vec<Constraint>,
    pub condition: Option<Expression>,
}

/// Whether a condition, if there is one, is not zero.
pub open spec fn condition_met(condition: Option<Expression>, t: Trace, i: int) -> bool {
    condition is Some ==> condition->0.eval(t, i) != 0
}

/// Whether a condition, if there is one, stays between `low` and `high` rows below the current
/// one.
pub open spec fn condition_within(condition: Option<Expression>, low: int, high: int) -> bool {
    condition is Some ==> condition->0.rotations_within(low, high)
}

/// Whether `after` is `before` and one constraint more, which goes by `name` and holds exactly
/// where `meaning` does.
pub open spec fn adds_constraint(
    before: Seq<Constraint>,
    after: Seq<Constraint>,
    name: Seq<char>,
    meaning: spec_fn(Trace, int) -> bool,
) -> bool {
    &&& after.len() == before.len() + 1
    &&& forall|j: int| 0 <= j < before.len() ==> #[trigger] after[j] == before[j]
    &&& after[before.len() as int].name@ == name
    &&& forall|t: Trace, i: int|
        t.wf() ==> (#[trigger] after[before.len() as int].holds(t, i) <==> meaning(t, i))
}

impl BaseConstraintBuilder {
    /// A builder without constraints and without a condition.
    pub fn new() -> (cb: Self)
        ensures
            cb.constraints@ == Seq::<Constraint>::empty(),
            cb.condition is None,
    {
        BaseConstraintBuilder { constraints: Vec::new(), condition: None }
    }

    /// Puts the constraints that follow under `condition`.
    pub fn begin_condition(&mut self, condition: Expression)
        requires
            old(self).condition is None,
        ensures
            final(self).condition == Some(condition),
            final(self).constraints == old(self).constraints,
    {
        self.condition = Some(condition);
    }

    /// Lifts the condition again.
    pub fn end_condition(&mut self)
        ensures
            final(self).condition is None,
            final(self).constraints == old(self).constraints,
    {
        self.condition = None;
    }

    fn add_constraint(&mut self, name: &'static str, constraint: Expression)
        ensures
            final(self).condition == old(self).condition,
            adds_constraint(
                old(self).constraints@,
                final(self).constraints@,
                name@,
                |t: Trace, i: int|
                    condition_met(old(self).condition, t, i) ==> constraint.eval(t, i) == 0,
            ),
            forall|low: int, high: int|
                condition_within(old(self).condition, low, high) && constraint.rotations_within(
                    low,
                    high,
                ) && constraints_within(old(self).constraints@, low, high)
                    ==> #[trigger] constraints_within(final(self).constraints@, low, high),
    {
        let poly = match &self.condition {
            Some(condition) => condition.clone().times(constraint),
            None => constraint,
        };
        self.constraints.push(Constraint { name, poly });
    }

    /// Demands that `constraint` is zero.
    pub fn require_zero(&mut self, name: &'static str, constraint: Expression)
        ensures
            final(self).condition == old(self).condition,
            adds_constraint(
                old(self).constraints@,
                final(self).constraints@,
                name@,
                |t: Trace, i: int|
                    condition_met(old(self).condition, t, i) ==> constraint.eval(t, i) == 0,
            ),
            forall|low: int, high: int|
                condition_within(old(self).condition, low, high) && constraint.rotations_within(
                    low,
                    high,
                ) && constraints_within(old(self).constraints@, low, high)
                    ==> #[trigger] constraints_within(final(self).constraints@, low, high),
    {
        self.add_constraint(name, constraint);
    }

    /// Demands that `lhs` and `rhs` are equal.
    pub fn require_equal(&mut self, name: &'static str, lhs: Expression, rhs: Expression)
        ensures
            final(self).condition == old(self).condition,
            adds_constraint(
                old(self).constraints@,
                final(self).constraints@,
                name@,
                |t: Trace, i: int|
                    condition_met(old(self).condition, t, i) ==> lhs.eval(t, i) == rhs.eval(t, i),
            ),
            forall|low: int, high: int|
                condition_within(old(self).condition, low, high) && lhs.rotations_within(low, high)
                    && rhs.rotations_within(low, high) && constraints_within(
                    old(self).constraints@,
                    low,
                    high,
                ) ==> #[trigger] constraints_within(final(self).constraints@, low, high),
    {
        self.add_constraint(name, lhs.minus(rhs));
    }

    /// Demands that both limbs of `lhs` and `rhs` are equal.
    pub fn require_equal_word(
        &mut self,
        name: &'static str,
        lhs: Word<Expression>,
        rhs: Word<Expression>,
    )
        ensures
            final(self).condition == old(self).condition,
            final(self).constraints@.len() == old(self).constraints@.len() + 2,
            adds_constraint(
                old(self).constraints@,
                final(self).constraints@.drop_last(),
                name@,
                |t: Trace, i: int|
                    condition_met(old(self).condition, t, i) ==> lhs.lo.eval(t, i) == rhs.lo.eval(
                        t,
                        i,
                    ),
            ),
            adds_constraint(
                final(self).constraints@.drop_last(),
                final(self).constraints@,
                name@,
                |t: Trace, i: int|
                    condition_met(old(self).condition, t, i) ==> lhs.hi.eval(t, i) == rhs.hi.eval(
                        t,
                        i,
                    ),
            ),
            forall|low: int, high: int|
                condition_within(old(self).condition, low, high) && lhs.lo.rotations_within(
                    low,
                    high,
                ) && rhs.lo.rotations_within(low, high) && lhs.hi.rotations_within(low, high)
                    && rhs.hi.rotations_within(low, high) && constraints_within(
                    old(self).constraints@,
                    low,
                    high,
                ) ==> #[trigger] constraints_within(final(self).constraints@, low, high),
    {
        self.require_equal(name, lhs.lo, rhs.lo);
        let ghost middle = self.constraints@;
        self.require_equal(name, lhs.hi, rhs.hi);
        assert(self.constraints@.drop_last() =~= middle);
    }

    /// Demands that `value` is zero or one.
    pub fn require_boolean(&mut self, name: &'static str, value: Expression)
        ensures
            final(self).condition == old(self).condition,
            adds_constraint(
                old(self).constraints@,
                final(self).constraints@,
                name@,
                |t: Trace, i: int|
                    condition_met(old(self).condition, t, i) ==> is_truth_value(value.eval(t, i)),
            ),
            forall|low: int, high: int|
                condition_within(old(self).condition, low, high) && value.rotations_within(
                    low,
                    high,
                ) && constraints_within(old(self).constraints@, low, high)
                    ==> #[trigger] constraints_within(final(self).constraints@, low, high),
    {
        self.add_constraint(name, value.clone().times(not(value)));
    }

    /// A gate of all constraints, each in force where `selector` is not zero.
    pub fn gate(self, name: &'static str, selector: Expression) -> (gate: Gate)
        ensures
            gate.name == name,
            gate.constraints@.len() == self.constraints@.len(),
            forall|j: int|
                #![trigger gate.constraints@[j]]
                0 <= j < self.constraints@.len() ==> {
                    &&& gate.constraints@[j].name == self.constraints@[j].name
                    &&& forall|t: Trace, i: int|
                        t.wf() ==> (#[trigger] gate.constraints@[j].holds(t, i) <==> (
                        selector.eval(t, i) != 0 ==> self.constraints@[j].holds(t, i)))
                },
            forall|low: int, high: int|
                selector.rotations_within(low, high) && constraints_within(
                    self.constraints@,
                    low,
                    high,
                ) ==> #[trigger] constraints_within(gate.constraints@, low, high),
    {
        let mut constraints: Vec<Constraint> = Vec::new();
        let mut j: usize = 0;
        while j < self.constraints.len()
            invariant
                j <= self.constraints@.len(),
                constraints@.len() == j,
                forall|k: int|
                    #![trigger constraints@[k]]
                    0 <= k < j ==> {
                        &&& constraints@[k].name == self.constraints@[k].name
                        &&& forall|t: Trace, i: int|
                            t.wf() ==> (#[trigger] constraints@[k].holds(t, i) <==> (selector.eval(
                                t,
                                i,
                            ) != 0 ==> self.constraints@[k].holds(t, i)))
                        &&& forall|low: int, high: int|
                            selector.rotations_within(low, high)
                                && self.constraints@[k].poly.rotations_within(low, high)
                                ==> #[trigger] constraints@[k].poly.rotations_within(low, high)
                    },
            decreases self.constraints@.len() - j,
        {
            let constraint = &self.constraints[j];
            let poly = selector.clone().times(constraint.poly.clone());
            constraints.push(Constraint { name: constraint.name, poly });
            j += 1;
        }
        Gate { name, constraints }
    }
}

} // verus!
