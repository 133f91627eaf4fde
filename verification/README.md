# hookbot

The logic of the Hookbot desk companion — its server's request handling, its command-line
tool and its tray application — as a library verified with Verus.

## Layout

- `src/` — the verified library.
  - `auth.rs`, `ratelimit.rs`, `crypto.rs`, `config.rs`: API keys and personal tokens, signed
    session cookies, the login rate limiter, sealed secrets, and configuration from the
    environment.
  - `routes/`: what each HTTP route decides — gamification levels and streaks, pairing
    tokens, the music integration's signed OAuth state, device registration and heartbeats,
    over-the-air updates, automation rules, insights, desk occupancy and more. Storage is
    reached through plain values: a handler's lookups come in as arguments, its writes go out
    as results.
  - `cli/`: the command-line tool's decisions — the security audit's findings and score,
    the configuration audit, login and saved credentials, hook installation into the agent's
    settings file, and the tables it prints.
  - `desktop.rs`: the tray application's status summary.
  - `text.rs`, `numbers.rs`, `json.rs`, `digest.rs`, `models.rs`: string and number helpers, a
    JSON value model, and the calls into the hashing, encoding, encryption and time crates.
- `tests/` — tests of the library, run against the real outside crates.
- `app/` — the command-line program around the library: argument parsing, HTTP requests,
  files and terminal output.

Each public function states its result in its `ensures`; properties that span several
functions are public proof functions named `lemma_*`.
