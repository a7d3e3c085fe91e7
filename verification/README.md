# vimg

A local image converter and optimizer (PNG, JPEG, WebP, AVIF), built as a
verified library (`src/`) and a thin command-line program (`app/`).

## Layout

- `src/cli.rs` — the formats, their extensions, and the command line as plain values.
- `src/text.rs` — character-level helpers (ASCII lower-casing, search, trimming, decimal).
- `src/pathname.rs` — path primitives of `std::path` behind named results, and
  extension/stem arithmetic on file names.
- `src/optimize.rs` — format detection by extension, the lossless PNG pass.
- `src/convert.rs` — output paths for conversions, and per-format encoding.
- `src/pipeline.rs` — per-file decisions: action, optimization, copy naming,
  numbered alternatives that never overwrite, `--to-folder` folders.
- `src/context_menu.rs` — the Explorer context menu as registry writes and removals,
  with the proof that uninstalling removes every key installing writes.
- `src/expand.rs` — which arguments are glob patterns.
- `src/update.rs` — self-update decisions and extracting the binary from archives.
- `app/` — argument parsing, file and network I/O, registry access, progress bars.
