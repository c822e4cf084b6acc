# crimson_desert_tomtom

A navigation arrow overlay for Crimson Desert. The game's own code is hooked
so that the player position, the map marker and the camera heading land in a
small shared block; the overlay reads that block every tick and draws an arrow
towards the marker.

## Layout

- `src/` — the library, written in Verus and proved:
  - `hooks/` — code caves, `jmp rel32` / absolute jump patches, and the plan of
    memory writes that installs the hooks (laws: every jump lands on its
    target, the caves tile the block and replay the overwritten instructions).
  - `scanner.rs` — AOB scanning of the game module and resolution of the world
    offset (most frequent RIP-relative target).
  - `app.rs` — attach scheduling, decoding of the shared block, scan planning
    and the "last set wins" marker rule.
  - `overlay.rs` — the hide/show rules of the arrow.
  - `logging.rs` — the bounded, timestamped debug log.
  - `config.rs`, `process.rs`, `error.rs`, `text.rs` — settings bounds, address
    choices for near allocation, process-name decoding, error messages.
- `tests/` — tests of the library.
- `app/` — the Windows program around it: process and memory access, window
  and GDI+ drawing, configuration files, and the floating-point navigation math.
