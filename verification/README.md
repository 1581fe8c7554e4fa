# provable_contracts

Three small Rust libraries whose contracts are proved with Verus:

- `src/newtype.rs`: `Money<C>`, an amount of cents tagged with a currency type
  (`Usd`, `Eur`, `Jpy`, or any `Currency`). Addition saturates at the bounds of
  `i64`; `to_string` renders `"{whole}.{cents:02} {code}"`.
- `src/typestate.rs`: `Connection<Closed | Open | Authenticated>`, whose
  transitions consume one state and return the next; `query` exists only on an
  authenticated connection.
- `src/safediv.rs`: `safe_div`, a total `i32` division, a decimal `i32` parser,
  and `run`, which turns an argument vector into a `DivOutcome`.
- `src/decimal.rs`: the decimal text of integers, shared by the above.

`tests/` runs the library on concrete values; `app/main.rs` is the command-line
shell (`money-demo`, `typestate-demo`, `safediv-demo <a> <b>`).
