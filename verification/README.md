# tak_garden

Verified session logic of a Tak game service: a server that hosts matches
reachable by short hashed ids, and a browser client that shows a match and
turns clicks, keys and typed commands into moves and requests.

- `src/` is the library, verified with Verus:
  - `protocol.rs`: colors, board sizes, the control a connection has, the
    messages between client and server.
  - `controllers.rs`: which (up to two) connections control the colors of a
    match, with the laws of adding, removing and swapping controllers.
  - `hasher.rs`: match ids to public hashes and back, through the `harsh` crate.
  - `matches.rs`: matches, their connections, joining and leaving, who may move.
  - `board.rs`: squares, directions and neighbours on a board.
  - `client.rs`: the client's state, history navigation, typed commands and
    what a click on the board means.
  - `display.rs`: what the client draws: square order and shades, road
    bridges, stone positions, labels and the status line.
  - `text.rs`: decimal numbers and substring tests on strings.
- `tests/` runs the library on concrete values.
- `app/` is the program around it (networking, the page, message encoding and
  the game engine); it is not verified.
