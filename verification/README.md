# girk

Verified core of a framework for match-based multiplayer games.

- `src/` is the library, written in Verus and proved by it. Functions whose results come from the clock
  or the operating system's random source (`elapsed_since`, `time_since_epoch`, `gen_rand*`) state no
  result; the rest state what they return.
  - `users_cache`, `ongoing_games`: the host server's caches of connected users and running games
    (consistency of the two maps is kept by every operation).
  - `connect`, `net`, `connection`: connect metadata, server connect tokens (made with `renet2_netcode`)
    and client connect packs.
  - `packets`, `ticks`, `packet_queue`: channel setup, client packet rate limiting, the replication-tick
    prefix that server messages carry (bincode varint encoding, with a proved round trip), and the queue
    that holds packets until their replication tick arrives (by tick, in order of arrival).
  - `rand64`: a seeded SipHash-2-4 random generator.
  - `game_instance`, `client_starter`, `client_monitor`, `progress`: game-instance reports and results,
    and client-side helpers.
- `tests/` runs the library with the real outside crates.
- `app/` is ordinary Rust around the library: serde wire formats, the game-instance command line, and
  the child processes that host game instances.
