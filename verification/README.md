# svm_escrow

Verified core of a Solana destination-chain escrow for cross-chain atomic swaps.

- `src/` (Verus): instruction decoding (`instruction`), the escrow account
  layout and program address (`state`), Merkle proof checking and the checks
  of escrow creation (`processor`), the stage, secret and proof checks of
  withdraw, cancel and rescue and the closing of the account (`exit`), error
  codes (`error`), and the trusted interface to Keccak-256 and
  program-address search (`solana`).
- `app/`: the runtime side — the instruction entry, account handling,
  sysvar reads, the system-program call that creates the escrow account, the
  lamport payout and account closing of withdraw, cancel and rescue, and the
  error type's runtime traits. Tokens are not moved: creating an escrow
  deposits none.
- `tests/`: unit and scenario tests of the library.
