# tickers

A small service-status monitor: it probes configured HTTP services on an
interval, stores each result, and serves a status page with the latest state
of every service, an overall verdict, and hourly and daily uptime history.

- `src/` is the verified library, with its specifications and proofs:
  - `config` — configuration types, defaults, per-service settings and validation;
  - `check` — judging a response or a failed request, and the message recorded for it;
  - `status` — the latest status per service, the overall verdict, history grouping;
  - `notify` — texts of down and recovery notices;
  - `display` — what the status page shows (error chips, banner, card head, timestamps);
  - `text` — text specifications and helpers the others are built on;
  - `laws` — properties that tie the modules together.
- `app/` is the server program around it: configuration file reading, the
  SQLite store, the HTTP API, the check and purge loops, and notices.
- `tests/` runs the library on concrete values.
