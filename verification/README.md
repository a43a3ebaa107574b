# copy_circuit

The copy circuit of a zkEVM in Verus: the constraints, lookups and row assignments for the bytes
that opcodes such as CALLDATACOPY, CODECOPY and LOGS copy.

- `src/` is the verified library. It states what is demanded of the rows over a model of the
  prime field, and fills rows in as a list of steps. `soundness.rs` proves what accepted rows
  say; `completeness.rs`, `layout.rs` and `described.rs` prove which rows are accepted.
- `app/` puts the circuit onto halo2. The less-than gadget and the tables of the other circuits
  are the caller's.
- `tests/` runs the library, also under halo2's mock prover.
