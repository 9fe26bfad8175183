# pnm

A verified encoder for the `pnm` image formats: PBM, PGM and PPM (plain and binary) and PAM.

- `src/color.rs`: colour types and their number of components.
- `src/header.rs`: the header kinds and their written form.
- `src/decimal.rs`: decimal text of numbers.
- `src/autobreak.rs`: line breaking of plain-text sample output.
- `src/encoder.rs`: the encoder, its header strategies, the checks of an image against a header
  and the writing of the samples; specified by `spec_encode`.
- `src/laws.rs`: properties of the encoder as a whole.
- `app/lib.rs`: the same encoder writing to any `std::io::Write`, with `std::io::Error`s.
