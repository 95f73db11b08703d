# overmax

The logic of Overmax, an overlay for DJMAX RESPECT V that reads the song-select
and result screens, as a library verified with Verus, and the ordinary Rust
around it.

- `src/` — the verified library: region tables and the virtual atlas of the
  capture, the scene readers that work on whole pixels, the window and focus
  decisions of the detection loop, the play-state history and the events it
  publishes, the X11 and DXGI capture decisions, the record change tracking, the
  settings layers, the V-Archive song search and record cache, the pattern
  sheet. Every public function states what it returns in its contract; the
  laws that relate several functions are public proof functions.
- `app/` — files and JSON text, SQLite, the X11 connection and shared memory,
  and the parts that compute in floating point (recommendations, settings
  clamping, sync candidates).
- `tests/` — tests of the library on concrete values.
