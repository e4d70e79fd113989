# session_relay

A signaling relay for screen-sharing sessions. A host (behind NAT) keeps a WebSocket
open to the relay and registers session ids on it; a client opens the join page, asks
for ICE servers, and sends its WebRTC offer, which the relay tunnels to the host that
holds the session and whose answer it relays back.

## Layout

- `src/` — the verified library (Verus):
  - `relay.rs` — the session registry, host control frames (`register`,
    `unregister`, `signal_response`), connection close, and the laws about them;
  - `tunnel.rs` — routing of client requests (`/whep`, `/reconfig`, `/leave`) to
    hosts, with the rate gate and client bindings, and the routing laws;
  - `rate_limit.rs` — fixed-window rate limiting per key, and its laws;
  - `reply.rs` — the HTTP answers the relay gives;
  - `messages.rs` — the values exchanged with clients and hosts;
  - `config.rs` — settings, and the ICE server list with TURN credentials;
  - `cookie.rs` — session ids and the `se_cid` client cookie;
  - `crypto.rs` — HMAC, SHA-256, Base64, random ids (trusted wrappers over the crates
    that compute them) and what the relay builds from them;
  - `maps.rs` — the `dashmap` maps that hold the shared state (trusted wrappers);
  - `clock.rs` — wall-clock and monotonic time (trusted wrappers);
  - `text.rs` — string handling: trimming, splitting, decimal numbers.
- `app/main.rs` — the server: axum routes, the host WebSocket loop, environment,
  JSON, and the static join page (read from `STATIC_DIR`, default `static/`).
- `tests/` — tests of the library.
