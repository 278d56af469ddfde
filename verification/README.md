# Treasury

A treasury for a chain, written and proved in Verus: a pot of funds, proposals to spend from it,
and an agile process for tipping.

- `src/` is the library. `Module` holds the treasury's records. A call takes what the chain's
  configuration and its currency say as plain values, changes the records, and yields, in order,
  the effects that the chain is to carry out. Each function states what it does to the records and
  what it yields; `spending_laws`, `declaration_laws`, `tipping_laws` and `deposit_laws` state what
  holds across calls.
- `src/runtime.rs` holds what is taken on trust of the runtime's crates: fixed-point fractions, the
  hash function, and the account that belongs to a module.
- `app/` puts the treasury into a FRAME runtime: its configuration trait, its storage, and the
  carrying out of effects with the runtime's currency and events.
- `tests/` runs the library on concrete values.
