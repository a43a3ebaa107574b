//! The cells that an assignment fills in, in the order in which it does so.
use crate::binary_number::{BinaryNumberConfig, CopyDataType};
use crate::config::LtConfig;
use crate::expression::{AdviceColumn, FixedColumn, Selector};
use vstd::prelude::*;

verus! {

/// What a cell is, for reports about it.
#[derive(Clone, Copy, Debug, PartialEq, Eq, Structural)]
pub enum Label {
    IsFirst,
    IdLo,
    IdHi,
    Addr,
    SrcAddrEnd,
    BytesLeft,
    RlcAcc,
    RwCounter,
    RwcIncLeft,
    IsLast,
    Value,
    ValueAccRlc,
    IsPad,
    IsCode,
    QEnable,
}

/// How an assignment is reported.
#[derive(Clone, Copy, Debug, PartialEq, Eq, Structural)]
pub enum Annotation {
    /// A cell of a copy event, reported with its row.
    AtRow(Label),
    /// A cell of a padding row, reported with its row.
    Padding(Label),
    /// A cell that is reported by its name alone.
    Plain(Label),
}

/// What a cell is assigned.
#[derive(Clone, Copy, Debug, PartialEq, Eq)]
pub enum CellValue<V> {
    Zero,
    One,
    Known(V),
}

/// One step of an assignment.
#[derive(Clone, Copy, Debug, PartialEq, Eq)]
pub enum RegionAction<V> {
    NameColumn { column: AdviceColumn, name: &'static str },
    AssignAdvice {
        annotation: Annotation,
        column: AdviceColumn,
        offset: usize,
        value: CellValue<V>,
    },
    AssignFixed {
        annotation: Annotation,
        column: FixedColumn,
        offset: usize,
        value: CellValue<V>,
    },
    EnableSelector { selector: Selector, offset: usize },
    /// Assigns the bits of `tag`.
    AssignTag { chip: BinaryNumberConfig, offset: usize, tag: CopyDataType },
    /// Assigns the comparison of `lhs` with `rhs`.
    AssignLt { chip: LtConfig, offset: usize, lhs: u64, rhs: u64 },
}

/// The steps of an assignment so far.
#[derive(Debug, PartialEq, Eq)]
pub struct Region<V> {
    pub actions: Vec<RegionAction<V>>,
}

impl<V: Copy> Region<V> {
    /// An assignment without steps.
    pub fn new() -> (region: Self)
        ensures
            region.actions@ == Seq::<RegionAction<V>>::empty(),
    {
        Region { actions: Vec::new() }
    }

    pub fn name_column(&mut self, name: &'static str, column: AdviceColumn)
        ensures
            final(self).actions@ == old(self).actions@.push(
                RegionAction::NameColumn { column, name },
            ),
    {
        self.actions.push(RegionAction::NameColumn { column, name });
    }

    pub fn assign_advice(
        &mut self,
        annotation: Annotation,
        column: AdviceColumn,
        offset: usize,
        value: CellValue<V>,
    )
        ensures
            final(self).actions@ == old(self).actions@.push(
                RegionAction::AssignAdvice { annotation, column, offset, value },
            ),
    {
        self.actions.push(RegionAction::AssignAdvice { annotation, column, offset, value });
    }

    pub fn assign_fixed(
        &mut self,
        annotation: Annotation,
        column: FixedColumn,
        offset: usize,
        value: CellValue<V>,
    )
        ensures
            final(self).actions@ == old(self).actions@.push(
                RegionAction::AssignFixed { annotation, column, offset, value },
            ),
    {
        self.actions.push(RegionAction::AssignFixed { annotation, column, offset, value });
    }

    pub fn enable_selector(&mut self, selector: Selector, offset: usize)
        ensures
            final(self).actions@ == old(self).actions@.push(
                RegionAction::EnableSelector { selector, offset },
            ),
    {
        self.actions.push(RegionAction::EnableSelector { selector, offset });
    }

    pub fn assign_tag(&mut self, chip: BinaryNumberConfig, offset: usize, tag: CopyDataType)
        ensures
            final(self).actions@ == old(self).actions@.push(
                RegionAction::AssignTag { chip, offset, tag },
            ),
    {
        self.actions.push(RegionAction::AssignTag { chip, offset, tag });
    }

    pub fn assign_lt(&mut self, chip: LtConfig, offset: usize, lhs: u64, rhs: u64)
        ensures
            final(self).actions@ == old(self).actions@.push(
                RegionAction::AssignLt { chip, offset, lhs, rhs },
            ),
    {
        self.actions.push(RegionAction::AssignLt { chip, offset, lhs, rhs });
    }
}

/// One step of laying a circuit out.
#[derive(Debug, PartialEq, Eq)]
pub enum LayouterAction<V> {
    /// Loads what the comparison needs.
    LoadLt { chip: LtConfig },
    /// Carries out an assignment.
    AssignRegion { name: &'static str, region: Region<V> },
}

/// The steps of laying a circuit out so far.
#[derive(Debug, PartialEq, Eq)]
pub struct Layouter<V> {
    pub actions: Vec<LayouterAction<V>>,
}

} // verus!
