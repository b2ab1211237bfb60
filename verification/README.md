# http_server

A small HTTP/1.1 server. The library (`src/`) holds its logic with Verus contracts and
proofs; the program (`app/`) does the networking, threads and file access.

## Library

- `http` — requests (`Request::build` over bytes, `RequestBuilder` line by line),
  headers (case-insensitive, trimmed names), responses and their wire form, status codes
  and methods, routes.
- `App` (crate root) — routes and scoped middleware; `match_path` matches `:param`
  patterns; `App::route` picks the handler and the middleware for a request.
- `server` — scopes, middleware scopes, the bytes sent for a response (keep-alive
  and `Content-Length`), and `server::connection`, which decides event by event what a
  kept-alive connection sends and whether it reads on.
- `routes` — the answers of `/`, `/echo/:msg`, `/user-agent` and `/files/:path`,
  including `safe_join`, which refuses absolute paths and `..` components.
- `gzip` — `Accept-Encoding` negotiation and gzip compression of bodies (flate2).
- `minserver`, `codecrafters` — two simpler servers with fixed routing.
- `params`, `text` — the key/value table and the character-level text functions.

## Program

```sh
app --directory /tmp/files               # full server on 127.0.0.1:4221
app minserver --directory /tmp/files     # minimal server
app codecrafters --directory /tmp/files  # server with typed headers
```
