# seer

The Seer command-line tool, with its logic as a library verified by Verus.

- `src/` is the library. Its functions carry `requires`/`ensures` contracts that
  Verus proves, except the small trusted wrappers around outside crates (below),
  whose contracts Verus takes as given:
  - `build`: which packages are Solana programs, the `seer.toml` settings, the
    build commands and summary, and the check of the `.debug` files.
  - `run`: grouping the build artifacts into programs, the file map and missing
    uploads, the consent decision, IDL validation, the source directories named by
    the DWARF line programs, and the session view (log routing, wrapping,
    scrolling, keys).
  - `update`: release severities, version comparison, checksums, the update-check
    cache and the decisions of `seer update`.
  - `install`, `paths`, `text`, `temp_file`: install targets, path components and
    text helpers.
  - Calls into outside crates (`sha2`, `serde_json`, `object`, `gimli`,
    `toml_edit`, `path-clean`) go through small `#[verifier::external_body]`
    wrappers whose contracts name their results.
- `tests/` runs the library on concrete values.
- `app/` is the command-line program: argument parsing, files, processes, the
  network, prompts and the terminal view. It reads and writes, and hands plain
  values to the library for each decision.
