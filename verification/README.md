# clarity

Signalling and room logic for a small peer-to-peer voice chat, verified with
Verus.

- `src/` — the verified library: the relay server's room table
  (`server`, at most five peers per room), the messages on the wire (`protocol`), the opening exchange of a
  client (`client`), the desktop client's screen state machine (`frontend`),
  the per-peer link session and its offer/answer negotiation over str0m (`peer`), framing of captured audio (`audio`), the
  colour palette (`utility`) and fresh random identifiers (`identity`).
- `app/` — the programs around it: `clarity server` runs the WebSocket relay
  on localhost:7878, `clarity` opens the iced client. Sockets, JSON, the
  WebRTC engine, audio devices and the Opus codec live there and follow the
  library's decisions.
- `tests/` — tests of the library on concrete values.
