# syncer

A clipboard synchroniser for devices on one local network: devices find
each other over mDNS, pair with a six-digit code, and send each other their
clipboard changes over an encrypted UDP channel.

## Layout

- `src/` — the verified library (Verus):
  - `model` — devices, clipboard payloads and events;
  - `device_table` — devices keyed by identity;
  - `session` — the synchronisation session: trusted devices, numbering of
    local events, and the rule that applies each remote event at most once
    and only when it is newer than what was seen from its device;
  - `trust_store` — the trusted-device store and its file format;
  - `clipboard` — clipboards;
  - `discovery` — the discovery interface and the table of discovered peers;
  - `message`, `codec` — transport messages, field constraints, wire format;
  - `crypto` — session keys and the frame cipher;
  - `channel` — pairing, sealing and opening frames;
  - `handshake` — the pairing handshake as a state machine;
  - `facade` — error codes, synchronisation history, JSON reports, and the
    engine that decides what local and remote events do;
  - `text` — decimal rendering and JSON escaping.
- `app/` — the parts that touch the outside world: the trust file, the UDP
  socket, the loops that run the handshake and the send retries, mDNS discovery, and the C interface.
- `tests/` — tests of the library.
