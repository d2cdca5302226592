# Switchboard

Switchboard is a control plane for a fleet of IoT devices: a device registry
with fleets and twins, telemetry ingest over HTTP and MQTT, alerts, remote
commands, config profiles, firmware rollouts with canary percentages, a team
with roles, and a browser console fed by a live WebSocket stream.

This crate is its logic as a Verus library, with contracts proved by Verus.

## Layout

- `src/` — the verified library.
  - `text`, `encoding`, `crypto`, `ids` — text handling (Unicode trimming,
    searching, code-point order), base64, the cryptographic primitives and
    identifiers, each outside call behind one trusted item.
  - `session` — signed session tokens, passcode hashing, expiry.
  - `vault` — AES-256-GCM sealing of secrets at rest.
  - `config` — settings, paths and number parsing.
  - `api` — what every endpoint decides: access control, request checks,
    the records to store, and the error replies.
  - `ingest`, `sim` — the telemetry topic scheme and ingest fields, and the
    simulator's bounded steps.
  - `console` — the browser console's side: the API envelope and paths, the
    capped live histories, and what the pages decide (searches, the fleet
    availability chart, rollout progress, role-dependent controls).
- `tests/` — the tests, run against the compiled library.
- `app/` — the server around the library: Axum routes, SQLite store, MQTT
  broker, WebSocket hub, the floating-point live state and simulator walk,
  and the serde forms of the library's records.
