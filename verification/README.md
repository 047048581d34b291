# untron_solver

The decision logic of a solver that fills Tron-side intents of an EVM intent pool. The
library holds, with contracts proved by Verus: which open intents are worth claiming, and
each job handler as a step function from the outcome of its last piece of outside work to
the next one (claiming on the hub, preparing and sending the Tron transactions, renting
energy, proving the fill), with the law that every move a handler makes is one the job
table accepts; and beneath them the job state machine, retries and breakers, transfer
planning, rental provider templates and answers, encodings and the settings. The outside
work itself (database, RPC, gRPC and HTTP clients, the clock) and the floating-point price
estimates stay outside; `app/job_runner.rs` shows how the loops drive the step functions.

## Layout

- `src/settings.rs`, `src/config.rs`: reading and checking the solver's settings.
- `src/candidate.rs`, `src/steps.rs`, `src/tron_steps.rs`: the step functions of intent
  selection and of the job handlers.
- `src/policy.rs`, `src/runner.rs`, `src/flow.rs`: the policy and the decisions the steps
  are built from.
- `src/transitions.rs`, `src/types.rs`, `src/store.rs`, `src/backoff.rs`, `src/diagnostics.rs`:
  the job state machine, retries, circuit breakers and error classification.
- `src/inventory.rs`, `src/planner.rs`, `src/delegate.rs`: paying transfers from several
  keys, and choosing the key that delegates stake.
- `src/rental.rs`, `src/json.rs`: energy rental providers, the request templates they are
  sent and the JSON answers they give.
- `src/intents.rs`, `src/abi.rs`, `src/address.rs`, `src/hexcodec.rs`, `src/base58.rs`,
  `src/receipts.rs`: intent specs, ABI words, addresses and receipts.
- `src/report.rs`: the lines of the jobs report.
- `src/nonce.rs`, `src/wordmath.rs`: the hub account's nonce floor and the 256-bit word
  arithmetic that gas costs are averaged with.
- `src/rows.rs`, `src/error.rs`, `src/text.rs`: stored rows, error values and the text
  helpers the rest is written with.
- `app/`: the command-line tool that recovers the letter case of a Tron address, reading the
  settings from the environment, and the floating-point pricing.
- `tests/`: tests of the library.
