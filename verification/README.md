# cquisitor_lib

Inspection and validation of Cardano transactions, with the rules written in
Verus and their contracts checked by it.

## Layout

- `src/` — the verified library.
  - `check_signatures` — key witness and Catalyst registration signatures of
    transactions and blocks.
  - `validators::phase_1` — values and asset bundles, the witness,
    collateral, output and auxiliary data rules, native script evaluation,
    addresses and reward addresses.
  - `validators::phase_2` — redeemer budgets, the inputs a transaction asks
    for, and the texts of phase-2 errors and warnings.
  - `plutus` — asset records and the JSON form of untyped Plutus programs.
  - `text`, `crypto`, `common`, `js_value`, `js_error` — text helpers
    (decimal, hex), hashing, shared records.
  Calls into `cardano-serialization-lib`, `cryptoxide` and `hex` stand behind
  small trusted functions whose contracts say what the library relies on.
- `tests/` — tests run against the compiled library.
- `app/` — the bindings to the serialization library's transaction and block
  types and to JSON (serde), which Verus does not see.
