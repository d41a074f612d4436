# hashoverlay

A read-only telemetry overlay for a racing simulator, with its core written in
Verus and proved against its contracts.

## Layout

- `src/` — the verified library: the shared-memory frame layout and field
  readers, configuration normalisation and migration, widget catalog and
  preset layouts, the edit-mode geometry (hit testing, dragging, snapping),
  hotkey parsing and toggles, lap keys and best-lap bookkeeping, the fuel lap
  tracker, standings and relative listings, the host control protocol, the
  ring buffer of samples and the command-line parser. Laws that span several
  calls stand as public `lemma_*` proof functions beside the code they speak
  of.
- `tests/` — tests of the library on concrete values.
- `app/` — the program around the library: reading the simulator's shared
  memory, the TOML configuration file, lap files on disk, the host pipe, and
  the floating-point engines that turn raw samples into display values.
