# table_tv

The rules of the Table TV API server, verified with Verus.

- `src/overlay.rs` — which text file holds each of the eight overlay pieces of a
  camera, what each piece shows for a match, a practice session or nothing, and
  when a camera's overlay is updated, cleared, restored or refreshed.
- `src/auth.rs` — Auth0 settings, the key set cache, bearer tokens, key ids and claims.
- `src/users.rs` — admin-only endpoints and sign-in (the first user becomes an admin).
- `src/error.rs` — what each API error says and which HTTP status and body answer it.
- `src/upgrade.rs`, `src/server.rs`, `src/stream.rs` — upgrade commands, the listen
  address, the FFmpeg preview command and the registry of running streams.
- `src/text.rs` — decimal rendering and trimming of strings.

`app/` is the server itself: HTTP routes (axum), the database (PoloDB), the JWKS
fetch (reqwest), token decoding (jsonwebtoken), file writes and FFmpeg processes.
