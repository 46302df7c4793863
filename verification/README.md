# aerostage

Saves which windows sit on which AeroSpace workspace (a *stage*) and puts
them back later. The library under `src/` is verified with Verus; the
program under `app/` wraps it with the command line, the stage files on
disk, the AeroSpace socket and the `aerospace` tool.

## Layout

- `src/aerospace/` — the AeroSpace client: the types it lists, the
  arguments each request sends, how answers are decoded, and the socket
  protocol (framing, handshake, responses).
- `src/capture.rs`, `src/capture/` — capturing a stage from the listed
  workspaces and windows; the `--workspaces` list.
- `src/restore/` — matching live windows to stage entries (the resolver
  rules, tried in order, each binding only where it points at exactly one
  window, the similarity rule at the one most similar),
  the fallback to the default workspace, the restore plan, and the laws
  about them (every window placed once, every entry bound or reported,
  moves only of open windows, a fresh capture restores in place).
- `src/stage/` — stage files: path completion, which files are stages,
  listing order, and the listing table.
- `src/common/format.rs` — aligned tables.
- `src/json.rs`, `src/text.rs` — JSON values and text helpers with their
  specifications.
- `app/` — `main`, argument parsing, configuration, file and socket I/O.

Calls into outside crates (`serde_json`, `regex`, `strsim`, `std::path`,
string helpers of `std`) go through small trusted wrappers whose contracts
are stated in their doc comments.
