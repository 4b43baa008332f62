# worldgen

A terminal world generator: a square or circular map of tiles coloured by a
random, a simplex-noise or a wave-function-collapse generator, reached through
a menu of scenes whose buttons are marked `#like this#` in their text.

- `src/` is the library, with every function proved against its contract: text splitting and pattern
  removal (`text`), the tile map and its drawing (`map`), the seeding of the
  simplex generator (`map::generators`), the clock (`clock`), and the scenes,
  key handling and frame pacing of the main loop (`terminal`).
- `app/` is the front end: it reads keys and the terminal size with
  crossterm, prints the frames the library composes, sleeps between frames,
  and computes tile colours and the disc of a circular map, which are
  floating point.
- `tests/` runs the library on concrete values.
