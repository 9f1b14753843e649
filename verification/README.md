# aptnomo

Autonomous APT threat hunter for Linux: a daemon that scans the machine,
reports what it finds, stores each finding as a threat card in a sled
database (bincode + zstd), and kills a critical, auto-killable process when
that is safe; plus a swipe window for reviewing the cards.

## Layout

- `src/` — the library, verified with Verus.
  - `types.rs` — modules, severities, card statuses, threat cards, baseline
    patterns, statistics.
  - `text.rs` — character-sequence helpers (lines, words, trimming, decimal
    and hexadecimal digits) with their specifications.
  - `db.rs` — the sled database as a map of trees, and the calls into sled.
  - `codec.rs` — how cards and patterns are encoded (bincode, then zstd).
  - `store.rs` — the threat store: put/get/scan, pending and history cards,
    resolving, baselines, statistics.
  - `scan.rs` — the eight detection rules, on what the daemon read.
  - `daemon.rs` — reporting, the kill decision, storing findings, the scan
    interval.
  - `review.rs` — what a swipe does to the store and the review list, and the
    text a card shows.
  - `laws.rs` — properties that relate several store operations.
- `app/` — the program: reading the machine, the scan loop, logging, the
  kills, and the egui review window (started as `aptnomo-gui`).
- `tests/` — tests of the library on concrete values.
