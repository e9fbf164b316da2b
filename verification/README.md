# xyk_pool

Verified client-side logic of a constant-product (x * y = k) liquidity pool
whose accounts and notes live on the Miden network.

- `src/` is the library, checked by Verus:
  - `pool_ops`: integer square root, swap quotes with the 0.3% fee, LP shares
    minted by a deposit and reserves paid out by a withdrawal, and the
    assembly sources the client builds (pool scripts, the LP fuzzing library).
  - `pool_laws`: properties kept across calls (the constant product never
    drops, quotes for an exact output are tight, a deposit followed by a
    withdrawal returns no more than was put in, ...).
  - `felt`: field elements modulo `2^64 - 2^32 + 1` and words of four.
  - `notes`: the input layouts of the deposit, withdraw and swap notes.
  - `common`: account ids, storage layouts of pool and registry accounts,
    return-note serials, wallet funding amounts, configuration records.
  - `storage`: the initial storage slots of each kind of account deployed.
  - `utils`: ordering of the two assets of a pair.
- `app/` holds what talks to the node, the assembler and the file system; it
  converts between the client's types and the library's.
- `tests/` runs the library on concrete values.
