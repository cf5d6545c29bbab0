# cyma-core

Verified musical analysis behind the Cyma harmonic visualizer: pitch classes,
chord recognition from MIDI notes, the per-channel MIDI note state (held
notes, duplicate Note Ons, sustain pedal), the user/file source split, the
renderer's integer presets and decisions, and the HUD text.

- `src/` is the library, written in Verus; every function carries a
  contract and the properties of the MIDI state machine and of chord
  recognition are proved as `law_*` proof functions.
- `tests/` exercises the library on concrete inputs.
- `app/` is a small command-line front end with the floating-point parts
  (colors, consonance, smoothing, the modal plate field) and the RON
  settings file.
