# polybot_rust

Decision logic of a Polymarket up/down trading bot, verified with Verus.

- `src/` — the verified library: order-book summaries (`data::clob`), market discovery
  and market records (`data::gamma`), the events API's response (`data::events`), the
  six signal strategies (`strategies`), order pre-validation for fill-or-kill, resting and exit orders (`data::clob`), the risk tiers
  (`trading::risk`), the safety guards (`trading::guards`), position management
  (`trading::executor`) and the scan-loop decisions (`scan`). Decimal text is read by
  `decimal`, numbers are written by `text`.
- `app/` — the program around it: reading the settings from the environment (defaults
  are applied by `config::Config::from_settings`), HTTP access to
  the CLOB and Gamma APIs, the price-feed task, the scan loop and logging.
- `tests/` — tests of the library on concrete values.

All money, prices, share counts and probabilities are fixed-point values in millionths
(`fixed::UNIT` is $1.00, one share, or probability 1); percentages are in ten-thousandths
of a percent (`fixed::PCT`). Threshold comparisons are exact. Amounts are `i64`; share
counts and book depths, which can exceed that, are `i128`. Decimal text is read up to
$4·10^12 in magnitude, so that ten products of two readings still fit `i128`.
Clock readings and order numbers come from the system clock and are the only values the
contracts leave open; each function that reads one hands it to a verified function
(`sync_due`, `mark_synced_at`, `DriftReconciler::new_at`, `exit_reason`, `close_exits`,
`act_on_signal`, the `*_with_id` order functions) whose contract is exact, and the instant
timed is fixed by one too (`RecentSignals::recorded_at`, `Executor::opened_instants`).
