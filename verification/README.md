# CargoDrop

Peer-to-peer file drop on a local network. Peers find each other over Bluetooth Low
Energy (each advertises its address, port and name in its device name), then send files
over TCP after a request that the receiver accepts or refuses. A security layer gives each
peer an Ed25519 identity with a short fingerprint, signs an X25519 handshake, derives an
AES-256-GCM key with HKDF-SHA256, and encrypts numbered blocks.

Layout:

- `src/` — the library, verified with Verus:
  - `octets` — decimal, hexadecimal and endian encodings, number parsing;
  - `security` — identity and fingerprints, handshake, block encryption, the session;
    `security::primitives` holds the calls into the cryptographic crates;
  - `rendezvous` — the BLE payload codec, the watch over discovered peers, heartbeats;
  - `network` — transfer messages, framing, the bookkeeping of received bytes, the two
    endpoints' decisions;
  - `user_info`, `ui`, `cli` — configuration, terminal rendering and prompts, commands.
- `app/` — the program: command-line parsing, file and network I/O, Bluetooth radio work,
  JSON, and the floating-point progress display.
- `tests/` — tests of the library.
