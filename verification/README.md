# balabol

The verified core of Balabol, a serverless peer-to-peer voice and chat
application. `src/` is a Verus library; `app/` is the ordinary Rust around it
(sockets, relays, the SQLite store, reading the network adapters, the HTTP rendezvous server, audio sample
arithmetic, serde forms of the records).

Modules of the library:

- `addr`, `stun`: endpoints, STUN binding requests and the parsing of their
  responses.
- `session`, `invite`, `signaling`: direct sessions (hole punching and its
  pacing, pings, acknowledged and de-duplicated chat), invite links, room
  codes, relay pacing and signed relay events.
- `sfu`, `gossip`, `engine`, `adapters`: SFU election, failover and routing;
  gossip and LAN peer tables; the engine's peer book, voice calls, records,
  invite codes and what each incoming datagram does; the choice of the
  physical network interface.
- `crypto`, `rendezvous`: Ed25519 identities, hex, XChaCha20-Poly1305 payloads,
  and the announcement registry.
- `crdt`: channel histories as Loro documents, exported, imported and
  merged between peers.
- `storage`, `capture`, `audio`, `logger`, `text`, `table`, `time`: records,
  capture source ids and JPEG compression of frames, voice hold and sample
  queues, log lines, and helpers.
