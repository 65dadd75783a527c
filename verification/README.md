# jet

The accounting core of a lending program, verified with Verus: obligations
(a borrower's collateral and loan positions), the reserves of a lending
market with their cached prices and note rates, amounts in tokens or notes,
and the decisions of the deposit and liquidation instructions.

- `src/number.rs`: fixed-point decimals; the arithmetic is done by
  `jet_proto_math`, whose results and panics the wrappers state.
- `src/state/`: the cache of slot-stamped values, the market and its
  reserves, obligations and the laws they obey.
- `src/instructions/`: what a deposit transfers and mints, what a liquidation
  hands over, and the routing of raw instructions.
- `src/amount.rs`, `src/errors.rs`, `src/pubkey.rs`, `src/utils.rs`: amounts,
  error codes, account addresses and byte-level helpers (the oracle
  product's attribute list).
- `app/`: glue to the Solana runtime (address and number conversions, the
  error and amount types with runtime derives, instruction flows).
