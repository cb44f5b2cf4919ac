# MarginGuard

A perpetual-futures margin, funding and liquidation engine with exact
fixed-point arithmetic, verified with Verus.

## Layout

- `src/` — the verified library.
  - `money`, `ids`, `invalid`, `position`, `market`, `risk`: the domain
    types, their bounds and the margin quantities derived from them.
  - `margin`, `insurance`: margin math, funding and the insurance fund.
  - `engine`, `ports`, `store`, `command`, `event`, `error`, `config`: the
    risk engine, specified command by command as a relation between the state
    before and after, over an abstract position store, event sink and
    admission gate; the in-memory store.
  - `advice`, `narration`, `ai_error`: the deterministic liquidation-risk
    heuristic and the rules for folding a language model's narration into it.
  - `clock`, `retry`, `timeout`, `breaker`: resilience primitives.
  - `oracle`, `simulate`, `node`: the seeded price walk, the market scenario
    simulation and the node's configuration.
  - `codec`, `row`: exact decimal text and the stored form of a position.
  - `api`: request validation and the wire shapes of outcomes and statistics.
- `tests/` — tests of the library.
- `app/` — the node binary: command line, GraphQL server, event bus, rate
  limiter, language-model client, Postgres store and telemetry.
