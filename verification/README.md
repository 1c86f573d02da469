# polaris

A local-first markdown editor's engine, with its behaviour stated as Verus
contracts and proved.

- `src/` — the library, verified by Verus: the rope-backed document
  (buffer, grapheme cursor, grouped undo history), smart punctuation, the
  drafts store and inline notes, word diffs and reviews, markdown rendering
  models (reading view, native preview, Notion blocks, LinkedIn text, HTML),
  publishing targets and their configuration, the terminal editor and the
  Notion deploy state machine, and the desktop editor's keymaps, editing session and app decisions
  (autosave, restore and review apply as one undo group after a guard
  snapshot, the preview, drafts and review pointers, closing). Calls into `ropey`, `unicode-segmentation`, `pulldown-cmark`,
  `similar`, `sha2`, `zstd`, `base64`, `toml` and `dirs` sit behind small trusted
  wrappers whose contracts name what those crates compute.
- `tests/` — tests of the library on concrete values.
- `app/` — the `polaris` program: argument parsing, files, the terminal
  event loop, the Notion HTTP requests, the drafts sidecar on disk and the
  publishing side effects.
