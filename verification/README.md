# raw_processor

RAW photo decoding support for a browser-based RAW developer.

- `src/` — the verified library (Verus):
  - `tiff.rs` — total big/little-endian integer readers for TIFF buffers;
  - `dcp.rs` — the DNG camera profile (DCP) parser, specified by
    `dcp_parse`, with real values kept exactly as encoded (`TiffReal`);
  - `demosaic.rs` — Bayer geometry: photosite colours, edge-replicated
    filter taps, red/blue direction at green photosites;
  - `raw.rs` — the `rawloader` types and calls the library relies on;
  - `decode.rs` — crop geometry, CFA alignment, black/white levels,
    photosite addressing and bundled-profile selection.
- `app/` — the floating-point stages (normalisation, MHC demosaicing,
  DNG colour pipeline), the WebAssembly entry points and command-line
  diagnostics, built on the library.
- `tests/` — tests of the library.
