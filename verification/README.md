# lightborne

The game logic of Lightborne, a 2D puzzle platformer in which the player shoots light beams of
different colors that bounce off terrain, toggle crystals through light sensors and drive moving
platforms.

- `src/` is the verified library: every function carries a contract that Verus proves, and the
  public proof functions state the laws the game relies on (for example that merged tile
  rectangles cover every tile exactly once, or that scrolling through colors always lands on an
  allowed one).
- `tests/` runs the library on concrete cases.
- `app/` is the program around it: reading `Lightborne.toml`, and the floating point camera,
  velocity and light meter arithmetic that feeds the library's decisions.

The only call into an outside crate that the library makes is `rand::random_range`, behind one
trusted wrapper in `src/egg.rs`.
