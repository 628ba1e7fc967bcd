# casifin

A financial computation library written in Verus: time value of money,
cash-flow analysis, loan amortization, depreciation, inventory costing and
financial ratios, every function of it verified against a contract.

Amounts are exact decimals. The arithmetic itself is `rust_decimal`'s: the
library calls it through a small set of trusted wrappers in `src/decimal.rs`,
whose contracts name what each operation returns and state the few facts
that the crate's source documents (exact sums, zero products, and the like).
Calendar arithmetic goes through `chrono` in the same way (`src/date.rs`).

## Layout

- `src/decimal.rs`, `src/money.rs`, `src/date.rs`, `src/text.rs`: the
  number, amount, date and text types and their models.
- `src/error.rs`, `src/config.rs`, `src/rate.rs`, `src/order.rs`,
  `src/traits.rs`: errors, solver settings, interest rates, and the traits
  that users implement.
- `src/tvm.rs`: present and future value, payment, number of periods, rate.
- `src/cashflow.rs`: NPV, IRR, XNPV, XIRR.
- `src/amortization.rs`: fixed-rate schedules, with their checks.
- `src/depreciation.rs`, `src/inventory.rs`: depreciation methods and
  inventory costing.
- `src/ratios/`: liquidity, solvency, profitability, yields, rate
  conversions, return metrics and statistics.
- `src/sdk.rs`: one entry point holding a configuration.
- `app/`: what stays outside the verified library: serialisable and
  printable copies of its types, the error type for `std::error::Error`, and
  conversions from floating point and to the outside crates' own types.
- `tests/`: the test suite.

Each law that the library promises stands in `src/` as a proof function
whose name starts with `law_`, or in the `ensures` of the function it
concerns.
