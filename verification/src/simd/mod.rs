//! Scanning operations for JSON parsing and writing.
//!
//! - string scanning (finding the closing quote and noting escapes)
//! - whitespace skipping
//! - detection of bytes that need escaping
pub mod spec;
pub mod fallback;
pub mod mask;
pub mod x86_64;
pub mod aarch64;
pub mod laws;

use spec::{string_scan, whitespace_end, escape_search_end};
use vstd::prelude::*;

verus! {

/// Result of scanning the body of a JSON string.
#[derive(Debug, Clone, Copy, PartialEq, Eq, Structural)]
pub struct ScanResult {
    /// Position of the closing (unescaped) quote, or the input length if there is none
    pub position: usize,
    /// Whether any escape sequence was passed over
    pub has_escapes: bool,
}

/// The processor features that choose which form of a scanner runs. They are
/// read from the machine by the caller (on x86_64 by runtime detection; NEON is
/// present on every AArch64 processor).
#[derive(Debug, Clone, Copy, PartialEq, Eq, Structural)]
pub struct CpuFeatures {
    pub avx2: bool,
    pub sse2: bool,
    pub neon: bool,
}

/// The form of a scanner that runs.
#[derive(Debug, Clone, Copy, PartialEq, Eq, Structural)]
pub enum SimdLevel {
    /// 32 bytes per step
    Avx2,
    /// 16 bytes per step
    Sse2,
    /// 16 bytes per step
    Neon,
    /// one byte per step
    Scalar,
}

/// The best available form: AVX2 over SSE2, then NEON, then scalar.
pub fn select_simd_level(features: CpuFeatures) -> (level: SimdLevel)
    ensures
        features.avx2 ==> level == SimdLevel::Avx2,
        !features.avx2 && features.sse2 ==> level == SimdLevel::Sse2,
        !features.avx2 && !features.sse2 && features.neon ==> level == SimdLevel::Neon,
        !features.avx2 && !features.sse2 && !features.neon ==> level == SimdLevel::Scalar,
{
    if features.avx2 {
        SimdLevel::Avx2
    } else if features.sse2 {
        SimdLevel::Sse2
    } else if features.neon {
        SimdLevel::Neon
    } else {
        SimdLevel::Scalar
    }
}

/// Scan a string body from `start` for its closing quote, passing over escape
/// sequences (a backslash and the byte after it). Returns the position of the
/// closing quote, or the length if there is none, and whether any escape was
/// passed over. The result does not depend on `features`: every form computes
/// the same thing.
pub fn scan_string(bytes: &[u8], start: usize, features: CpuFeatures) -> (r: ScanResult)
    ensures
        (r.position as int, r.has_escapes) == string_scan(bytes@, start as nat, false),
{
    match select_simd_level(features) {
        SimdLevel::Avx2 => x86_64::scan_string_avx2(bytes, start),
        SimdLevel::Sse2 => x86_64::scan_string_sse2(bytes, start),
        SimdLevel::Neon => aarch64::scan_string_neon(bytes, start),
        SimdLevel::Scalar => fallback::scan_string_scalar(bytes, start),
    }
}

/// Skip whitespace (space, tab, line feed, carriage return) from `start`.
/// Returns the position of the first byte that is not whitespace, the length if
/// there is none, or `start` itself if it lies past the end. The result does not
/// depend on `features`.
pub fn skip_whitespace(bytes: &[u8], start: usize, features: CpuFeatures) -> (r: usize)
    ensures
        whitespace_end(bytes@, start as int, r as int),
{
    match select_simd_level(features) {
        SimdLevel::Avx2 => x86_64::skip_whitespace_avx2(bytes, start),
        SimdLevel::Sse2 => x86_64::skip_whitespace_sse2(bytes, start),
        SimdLevel::Neon => aarch64::skip_whitespace_neon(bytes, start),
        SimdLevel::Scalar => fallback::skip_whitespace_scalar(bytes, start),
    }
}

/// Find the first byte at or after `start` that needs escaping in a JSON string
/// (a control character, `"` or `\`). Returns its position, or the length if
/// there is none. The result does not depend on `features`.
pub fn find_escape_needed(bytes: &[u8], start: usize, features: CpuFeatures) -> (r: usize)
    ensures
        escape_search_end(bytes@, start as int, r as int),
{
    match select_simd_level(features) {
        SimdLevel::Avx2 => x86_64::find_escape_needed_avx2(bytes, start),
        SimdLevel::Sse2 => x86_64::find_escape_needed_sse2(bytes, start),
        SimdLevel::Neon => aarch64::find_escape_needed_neon(bytes, start),
        SimdLevel::Scalar => fallback::find_escape_needed_scalar(bytes, start),
    }
}

} // verus!
