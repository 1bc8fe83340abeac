rainbow-ant
===========

Langton's ant with several ants at once, several rule sets of any number of colours, and
four kinds of grid (square, square with diagonals, hexagonal, triangular).

Layout:

- `src/` is the simulation, with the proofs of its contracts. `world.rs` states what a
  generation is, as mathematics, and when every read it makes succeeds; `state.rs` runs
  it, keeps a copy of the world every 100 000 generations and goes back to any earlier
  generation from the latest copy; `replay.rs` proves that, on a state that has been run
  (or recalculated) since its last edit, going to a generation lands where running from the
  start lands. `direction.rs` and `ant.rs` hold the turns and moves of each grid kind,
  `settings.rs` the speed controls.
- `app/` is the window, drawn with iced: it draws the field, reads the mouse and keyboard,
  and calls the library for every change of the simulation.
- `tests/` runs the library on concrete cases.
