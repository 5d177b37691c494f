# JSON byte scanners

Three scanning primitives for a JSON reader and writer, each in a scalar form
and in chunked forms (16 and 32 bytes per step), all proved against one
specification:

- `scan_string`: the closing quote of a string body, and whether an escape
  sequence precedes it;
- `skip_whitespace`: the first byte that is not JSON whitespace;
- `find_escape_needed`: the first byte that must be escaped on output.

Layout: `src/simd/spec.rs` (specifications and laws), `fallback.rs` (scalar),
`x86_64.rs` (16/32-byte forms), `aarch64.rs` (16-byte form), `mask.rs`
(lane masks), `mod.rs` (form selection and dispatch). `app/` reads the
processor's features and calls the library with them.
