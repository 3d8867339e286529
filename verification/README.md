# purgedb

A small database of 3D-printing filaments and the purge (flushing) volumes measured
between them, with a desktop window to browse them and to type a grid of purge values
into the purge dialog of OrcaSlicer or BambuStudio.

- `src/` is the library, verified with Verus: filaments and their colors, the filament
  grid and its saved slots, the send history, the purge-entry and new-filament forms, the
  calibration table and its stable sort, the filament cache, and the plans of key
  presses and control writes that fill a purge dialog. Each public function states what
  it returns in its contract; the `lemma_*` proof functions state laws that span
  functions (round trips of colors, of saved grids, of the history and of the offset).
- `tests/` runs the library on concrete values.
- `app/` is the program around it: the SQLite database, the egui window, logging, the
  saved state, and the Windows input that performs the library's plans.
