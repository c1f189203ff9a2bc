# tank

A small 2D sprite engine and the games built on it — a networked tank battle,
a single-player tank game, SpaceOut, and the animation logic of a snowball
fighter — written as a Verus library: the rules are executable Rust whose
behaviour is stated in `requires`/`ensures` contracts and proved.

## Layout

- `src/` — the verified library
  - `geometry`, `bitmap`, `sprite`, `engine`: rectangles, sprites with their
    movement at the edges of their bounds and their frame animation, and the
    engine that orders sprites by z-order, updates them and reports deaths and
    collisions to the game's reactions (`UpdateCallback`).
  - `game`: the networked tank game (server step, key handling, server events
    applied on clients).
  - `protocol`, `numbers`, `text`: the text messages between clients and
    server (writing and reading them, with round-trip laws), decimal numbers.
  - `battle`: the rules of the tank game whose sprites move in fractional
    pixels: collisions, deaths, scoreboard, keys.
  - `session`: that game's binary protocol (bincode frames and batches), the
    client's session with the server and the server's list of players, with
    laws that what one side writes the other reads.
  - `solo`, `space_out`, `pose`: the single-player tank game, SpaceOut, and
    the snowball fighter's animation state machine.
  - `background`, `platform`, `timer`, `utils`: which parts of a scrolling
    layer to draw, the page's listeners and event queues, frame pacing,
    random numbers and ids.
- `tests/` — tests on concrete values.
- `app/` — the websocket servers, the browser clients' message handling and
  drawing, and the floating-point parts (background scrolling, animations,
  fractional sprites, the fractional tank game, vectors and matrices).
