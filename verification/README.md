# quant_lab

A verified core for a quantitative-finance toolkit, written in Verus.

`src/` holds the logic that works on integers, booleans and enums, each
function with a contract proved by Verus:

- `afml::walk_forward` — rolling and anchored walk-forward splits, with
  proofs that training bars precede testing bars, of the window shapes and
  of the window count.
- `afml::purged_kfold` — purged k-fold splits with embargo, with proofs that
  the roles of a fold partition the events, that training events neither
  overlap the test period nor enter during the embargo, and that every event
  is tested in exactly one fold.
- `afml::weights` — number of events active at each bar.
- `afml::triple_barrier` — resolution of a triple-barrier exit from the
  barrier touches of each bar; ternary and binary labels; entry checks.
- `afml::backtest` — entry schedules, traded bars and bounds of the
  event-based backtests.
- `trading` — signals, positions and the long-only transition rule (with a
  proof that trades alternate and no position goes short), the round trips
  it makes (each entry paired with the next exit), SMA crossover
  parameters and decisions, buy-and-hold.
- `fraud`, `loan`, `risk`, `stocks` — confusion-matrix tallies, one-hot
  positions and grade ranks, ROC counts, drawdown durations and recoveries,
  volume totals.
- `common` — the records of a transactions CSV file (read with the csv
  crate), the layout and class label of each row, and the row errors.
- `text` — error messages with decimal numbers.

`app/` holds the floating-point numerics (returns, volatility, Sharpe and
Sortino ratios, Kelly sizing, labelers, backtest engines), reading files,
the parsing of floating-point fields, and the error types with `Display`.
The integer decisions it shares with the core are the core's: splits, fold
roles, barrier exits, entry checks, round trips of the long-only rule, entry
schedules, the traded bars and bounds of each fold, the CSV records of a
transactions file, the layout and class label of each row, and the row
errors.
