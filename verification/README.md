# operon_gui

The logic of the Operon desktop shell as a verified library: parsing the
agent's markdown (tables, math, SVG, mermaid diagrams and their layout),
assembling a streamed response turn (text, thinking, tool cards, activity
groups, permission prompts), rebuilding stored conversations, the sidebar
lists, the settings pages, and the preferences model. The functions in
`src/` carry contracts that Verus proves, except the small trusted wrappers
around outside calls, whose contracts are stated and not proved.

Layout:

- `src/` — the library, written in Verus. Calls into `pulldown-cmark`,
  `syntect`, `serde_json`, `base64`, `sha2` and a few `std` functions go
  through small trusted wrappers whose contracts are stated next to them.
- `tests/` — ordinary Rust tests of the library.
- `app/` — a headless driver around the library: file and process I/O,
  preference files, notifications, and the fractional window geometry.
