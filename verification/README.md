# ascenoria

The rules of the Ascenoria strategy prototype as a Verus-verified library.

- `src/` holds the verified game logic: data lookups by identifier, mod load
  order and data layering, research, ship design validation and statistics,
  hull selection and its text rendering, planet surface power connectivity,
  the planet economy and build menu, victory tracking, and the new-game setup
  screens. Every public function states its result in `ensures`; laws that
  relate several functions are public proof functions.
- `tests/` runs the library on concrete values.
- `app/` holds what the verifier does not see: reading and writing blueprint
  files with serde and toml, and the floating-point parts of the game
  (domination thresholds, ship strength figures, colors, camera zoom).
