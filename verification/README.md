# fluxhead

Parsing of Commodore 1541 G64 disk images, verified with Verus: the G64
header and its track location and speed zone tables, the sync marks on each
track, and the CBM DOS header and data blocks behind them, decoded from GCR
with the `cbm-dos` crate.

- `src/gcr.rs`: what GCR decoding returns, and the trusted contract of `cbm-dos`.
- `src/layout.rs`: the little-endian records of a G64 image and their decoding.
- `src/sector.rs`: sectors, tracks and parsed images, with their values.
- `src/model.rs`: the meaning of parsing, over byte sequences, and the images it is defined on.
- `src/fluxhead.rs`: the parser `Fluxhead`, whose functions are proved against the model.
- `src/laws.rs`: properties of the model that hold for every input.
- `app/lib.rs`: reading image files, and refusing images that cannot be parsed.
