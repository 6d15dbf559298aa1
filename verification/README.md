# backend

The decision logic of a personal-assistant backend (todos, reminders, events,
ClickUp time tracking, news digests, portfolio and cashflow summaries, wallet
and exchange connectors), written in Verus and verified.

- `src/` — the verified library. Each function's contract states its result
  over spec functions; the laws that relate several functions are public
  proof functions (`lemma_*`). Calls into `chrono`, `rust_decimal`,
  `jsonwebtoken`, `constant_time_eq`, `feed-rs` and `sha2` go through small
  trusted wrappers: where a crate's result takes more than a few lines to
  state (a parsed date, a decimal sum, a signed token), the contract names it
  and states the short facts the crate's source shows about it. Token
  expiry is checked against a clock reading the caller passes in.
- `app/` — the process around it: environment variables, JSON wire types and
  their conversions, the clock, and the few computations on floating point.
- `tests/` — tests of the library on concrete values.
