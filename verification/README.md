# API firewall

A reverse proxy that inspects API traffic. Requests and responses are held against detectors, a
route specification, learned schemas and rate limits; a policy decides what becomes of what was
found, and an admin interface shows and changes the policy.

- `src/` is the library: detection, policy, rate limits, mitigation, the inventory of routes, policy
  bundles, response contracts, exports, queries and the payloads of telemetry. All of it is verified
  with Verus. What it takes from other crates stands in `outside.rs`, `store.rs` and
  `telemetry_delivery.rs`, behind functions whose contracts are trusted.
- `app/` is the program around it: listeners, the SQLite database, the configuration file, HTTP
  clients, and the floating-point statistics of client behavior.
- `tests/` runs the library on given values.

Confidences, scores and risks are counted in millionths, points in time in nanoseconds since the
Unix epoch. State that requests share is passed in explicitly: the memory of routes, the memory of
schemas, the rate limiter and the store of mitigations.
