# embedded-qr

A QR code generator for typed QR versions (`Version1` through `Version40`),
written in Verus. The library is verified: its public functions carry
contracts that state their results, and Verus proves them.

```rust
use embedded_qr::{QrBuilder, Version1};

let qr = QrBuilder::<Version1>::new().build(b"HELLO WORLD").unwrap();
assert_eq!(qr.width(), 21);
```

The builder picks the most compact encoding mode (numeric, alphanumeric or
bytes) and the strongest error-correction level that fits, unless they are
pinned with `with_mode` and `with_ecc_level`, and always applies the mask
with the lowest penalty.

## Layout

- `src/` — the verified library.
  - `types.rs`, `version.rs`, `helper.rs`, `capacity.rs`: modes, levels,
    masks, the per-version tables and the capacity queries.
  - `encoder.rs`: the data codewords of a payload (bit stream, terminator,
    padding).
  - `gf.rs`, `ecc.rs`: GF(256) arithmetic and Reed-Solomon ECC codewords.
  - `interleave.rs`: splitting into blocks and interleaving.
  - `matrix_template.rs`: the function patterns of each version.
  - `placement.rs`, `penalty.rs`, `matrix.rs`: placing the codewords,
    scoring and choosing the mask, the final matrix.
  - `builder.rs`: the end-to-end pipeline.
  - `drawable.rs`: the pixel geometry of a rendered matrix.
- `app/` — the `embedded-graphics-core` adapter (`Drawable` and
  `OriginDimensions` for a drawable matrix).
- `tests/` — tests of the library.

Each contract states its result over specification functions: for
instance, `QrBuilder::build` gives, module by module, the symbol of the
interleaved codewords with the format information, masked with the first
of the eight masks of lowest penalty. Proof functions state the laws that
relate several functions, such as `lemma_build_succeeds_iff_fits`
(building succeeds exactly when `capacity::fits` says the payload fits) and
`lemma_best_mask_is_first_minimum`.
