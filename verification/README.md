# quantum_vpn

The verified core of a post-quantum VPN server, written in Verus.

- `src/crypto.rs`: AES-256-GCM session encryption with a counter nonce, and the
  server's Kyber768 / Dilithium2 key material.
- `src/session.rs`: the table of live sessions, specified as a map from id to session.
- `src/connection.rs`: the decisions of a client's WebSocket connection, frame by frame.
- `src/proxy.rs`, `src/page_proxy.rs`: which proxied HTTP requests are refused, and what
  is sent or answered for the others.
- `src/primitives.rs`: the trusted calls into `aes-gcm`, `pqcrypto-*`, `uuid`, `url` and std.
- `app/`: the actix-web servers around the library (WebSocket loop, HTTP client, JSON).
