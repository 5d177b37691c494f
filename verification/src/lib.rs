//! Byte-scanning primitives for a JSON reader and writer: locating the end of a
//! string body, skipping insignificant whitespace, and finding the next byte that
//! must be escaped on output.
//!
//! Every routine exists in a scalar form and in chunked forms that examine 16 or
//! 32 bytes per step (the widths of SSE2/NEON and AVX2 registers). All forms are
//! proved to compute the same result.
pub mod simd;
