# wiimaker

Verified core of a small Wii homebrew game toolkit: the `.wpack` asset archive,
RGB5A3 texture tiling, PCM16 WAV reading and writing, asset cooking, sprite-sheet
slicing, GCN-layout input merging, grid headings, tilemaps and the editor's
console filter.

- `src/` — the library, written in Verus. Every function carries a contract; the
  round-trip properties of the formats are stated as proof functions
  (`lemma_wpack_roundtrip`, `lemma_wav_roundtrip`, `lemma_untile_tile`, …).
- `tests/` — executable tests of the library.
- `app/` — host glue that stays outside verification: file and directory I/O,
  JSON sidecars, the `input map` report, audio playback through a system player,
  and the floating-point parts (analog sticks, UV sampling, alpha blending).

Calls into other crates and into `std` that the library cannot prove are wrapped in
small trusted functions whose doc comments say what their contracts assume.
