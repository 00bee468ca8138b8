# zogzog

A LAN bridge for Warcraft III: a host relays the game's UDP discovery
traffic (W3GS) to remote clients, and each client replays it to its local
game, so that games hosted elsewhere show up as LAN games.

- `src/` is the verified library (Verus):
  - `w3gs.rs`: packet ids and names, the SEARCHGAME and greeting datagrams,
    and the tests that recognise W3GS datagrams and greetings;
  - `peers.rs`: the host's table of live peers and what becomes of each
    datagram that reaches the bridge;
  - `session.rs`: the state the window shows, folded from network events.
- `app/` is the program: the egui window, the tokio sockets and timers.
- `tests/` runs the library on concrete values.
