# sdkwork_games

The game engine services of SDKWork: game catalog, game modes, matchmaking tickets,
rooms and seats, points ledgers and balances, leaderboards, and the event outbox with
its audit trail.

## Layout

- `src/`: the library, written in Verus. Each service has a module for its model,
  request validation, row mapping and SQL helpers (`catalog`, `modes`, `matchmaking`,
  `rooms`, `points`, `leaderboard`, `events`) and a module for its in-memory store
  (`*_store`, `points_ledger`). Shared pieces: `text` (blank checks, trimming, search),
  `paging`, `sorting` (stable ordering by composite keys), `search`, `rules`, `json`.
  Every function carries a contract, and the stores' invariants are stated and proved
  as `law_*` proof functions beside them (idempotent replays, unique keys and codes,
  version conflicts, ranking order, seat distinctness and room capacity, read-back of
  writes, ledger totals).
- `tests/`: tests of the library on concrete values.
- `app/`: the asynchronous repository traits, thread-safe in-memory adapters that supply
  ids and times, and the serde and error types used at the service boundary.

Ids and timestamps are inputs to the store operations; the adapters in `app/` draw them
from `uuid` and `chrono`.
