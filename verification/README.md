# url_shortener

A URL shortener whose logic is formally verified.

- `src/` is the verified library: URL and custom-code validation, short-code
  generation, expiry texts, the request flows that decide each query on the URL
  table, error answers, and per-client rate limiting. `src/url_table.rs`
  states what the table answers to each query and proves the laws the flows
  obey against it (a stored code redirects to its URL, deleted codes are gone,
  the same URL is shortened to the same code, an insert under a taken code is
  refused, every request is answered after a bounded number of queries,
  whatever moments the clock reports between its steps).
- `app/` is the HTTP service around it: axum routes, the SQLite database
  through sqlx, configuration, the OpenAPI description and the shared rate
  limiter.
- `tests/` runs the library: validation, code generation, expiry, error
  answers, the rate limiter, and the request flows against an in-memory table.
