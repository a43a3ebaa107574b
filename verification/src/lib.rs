//! The copy circuit: constraints, lookups and row assignments for the bytes that opcodes such as
//! CALLDATACOPY, CODECOPY and LOGS copy.
//!
//! A copy event takes up two rows for each byte: a read row, which is a step, and a write row
//! below it. [`config`] states what is demanded of the rows and [`lookup`] what they find in the
//! tables of other circuits; [`assignment`] fills the rows in.
//!
//! [`soundness`] proves that accepted rows copy bytes, [`completeness`], [`layout`] and
//! [`described`] that rows which copy bytes are accepted.
//!
//! The functions themselves are held to laws: [`row_laws`] says which rows the configured gates
//! let pass, [`lookup_laws`] what the rows are looked up as, [`config_laws`] what else is
//! configured, [`assignment_laws`] what is assigned, [`circuit_laws`] how blocks and circuits go
//! together, and [`building_laws`] what constraints are built from.
pub mod assignment;
pub mod assignment_laws;
pub mod binary_number;
pub mod building_laws;
pub mod circuit;
pub mod circuit_laws;
pub mod completeness;
pub mod config;
pub mod config_laws;
pub mod constraint_builder;
pub mod constraint_system;
pub mod described;
pub mod expression;
pub mod field;
pub mod layout;
pub mod lookup;
pub mod lookup_laws;
mod pairing;
pub mod region;
pub mod row_laws;
pub mod soundness;
pub mod table;
pub mod trace;
