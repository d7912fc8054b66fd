# noxious

A TCP proxy that injects network faults ("toxics": latency, bandwidth limits,
slicing, data limits, timeouts, slow closes) into the traffic that passes through
it, driven by a REST API, with a client for that API.

Layout:

- `src/` — the library, verified with Verus: proxy configurations and their
  validation, the toxic lists of a proxy and the events that change them, the
  decisions of the toxics (slice sizes, bandwidth pacing, latency delays, data
  limits), the per-connection toxic state, the registry of running proxies of the
  API server, the store errors and their status codes, and the request targets
  and error handling of the client.
- `app/` — the server program around the library: sockets, async tasks, the
  HTTP routes, JSON, command line arguments, logging, and the HTTP side of the
  client.
- `tests/` — tests of the library on concrete values.
