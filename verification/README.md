# stellarfiles

The decision-making core of a desktop file manager, written in Verus and
proved against its contracts: how paths compare and join, which files a
listing shows and in what order, what clicks and keys do to the selection,
the paste and delete queues, navigation history, archive entry handling,
progress accounting, the sidebar's folder tree and dialogs, and the names
and labels the window shows.

Layout:

- `src/` — the verified library. Each module states its behaviour over
  mathematical models (sequences of characters, sets of path components)
  and proves it; the calls into outside crates (`regex`, `fuzzy-matcher`,
  `mime_guess`, `rayon`, `md-5`, `image`) sit behind small trusted wrappers
  whose contracts are documented where they stand.
- `tests/` — tests that run the library with the real outside crates.
- `app/` — a command-line program around the library: file system and
  process I/O (listing directories, copying, deleting, shredding, archives
  through `zip`, `tar`, `flate2`, `zstd`, `bzip3` and `7z`), and the `clap`
  front end.
