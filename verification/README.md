# open_editor_lib

The verified core of a local-first video editor whose projects live in a
folder. Every edit, manual or proposed by a model, becomes a command envelope
that the dispatcher checks against the project and its revision, applies, and
validates; the contracts of `src/` state exactly what each step yields.

## Layout

- `src/project.rs` — the project document (sequences, tracks, clips, media),
  its views, and the new-project template.
- `src/validation.rs` — what makes a project valid, and the first reason it is not.
- `src/command.rs` — command envelopes and the dispatcher; `src/split.rs` holds
  the exact arithmetic of splitting a clip; `src/lookup.rs` the lookups by identifier.
- `src/laws.rs` — properties across commands: providers never touch media,
  accepted commands leave a valid project, moves, imports and duplications are undone
  by their inverse commands.
- `src/jobs.rs` — the media-job table and its state changes; a cancellation flag, once set, stays set.
- `src/service.rs` — authorization and routing of requests on the command socket, and
  its 256-bit capability token.
- `src/mcp.rs` — routing of the tool server's JSON-RPC requests.
- `src/media.rs` — media classification, analyser log parsing, encoder arguments, relinking.
- `src/probe.rs` — what inspection takes from the prober's JSON report.
- `src/proxy.rs` — the proxy encoder's workflow: hardware first, one portable fallback.
- `src/keyframes.rs` — selecting and ordering the keyframe images of an analysis.
- `src/artifacts.rs` — recording analysis results and playback proxies in the project.
- `src/render.rs` — the export workflow: refuse an empty timeline, clean up after a failed render.
- `src/time.rs`, `src/text.rs`, `src/ids.rs`, `src/native.rs` — rational time,
  text helpers (identifier and decimal text), identifiers and clock, platform bookmarks.
- `app/` — files, processes, sockets and JSON around the library.

Times are rational (`value / timescale` seconds). Rates, opacity, volume and
transforms are fixed-point integers with `1.0` stored as one million.
