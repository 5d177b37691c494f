use lib::simd::aarch64::{find_escape_needed_neon, scan_string_neon, skip_whitespace_neon};
use lib::simd::fallback::{find_escape_needed_scalar, scan_string_scalar, skip_whitespace_scalar};
use lib::simd::mask::{movemask16, movemask32, ByteClass};
use lib::simd::x86_64::{
    find_escape_needed_avx2, find_escape_needed_sse2, scan_string_avx2, scan_string_sse2,
    skip_whitespace_avx2, skip_whitespace_sse2,
};
use lib::simd::{
    find_escape_needed, scan_string, select_simd_level, skip_whitespace, CpuFeatures, ScanResult,
    SimdLevel,
};

/// One feature set for each form a dispatcher can pick.
fn every_feature_set() -> Vec<CpuFeatures> {
    vec![
        CpuFeatures { avx2: true, sse2: true, neon: false },
        CpuFeatures { avx2: false, sse2: true, neon: false },
        CpuFeatures { avx2: false, sse2: false, neon: true },
        CpuFeatures { avx2: false, sse2: false, neon: false },
    ]
}

fn scan_all_forms(bytes: &[u8], start: usize) -> Vec<ScanResult> {
    vec![
        scan_string_scalar(bytes, start),
        scan_string_sse2(bytes, start),
        scan_string_avx2(bytes, start),
        scan_string_neon(bytes, start),
    ]
}

fn skip_all_forms(bytes: &[u8], start: usize) -> Vec<usize> {
    vec![
        skip_whitespace_scalar(bytes, start),
        skip_whitespace_sse2(bytes, start),
        skip_whitespace_avx2(bytes, start),
        skip_whitespace_neon(bytes, start),
    ]
}

fn find_all_forms(bytes: &[u8], start: usize) -> Vec<usize> {
    vec![
        find_escape_needed_scalar(bytes, start),
        find_escape_needed_sse2(bytes, start),
        find_escape_needed_avx2(bytes, start),
        find_escape_needed_neon(bytes, start),
    ]
}

#[test]
fn test_scan_string_no_escapes() {
    let input = b"hello world\"remaining";
    for features in every_feature_set() {
        let result = scan_string(input, 0, features);
        assert_eq!(result.position, 11);
        assert_eq!(result.has_escapes, false);
    }
}

#[test]
fn test_scan_string_with_escapes() {
    let input = b"hello\\nworld\"remaining";
    for features in every_feature_set() {
        let result = scan_string(input, 0, features);
        assert_eq!(result.position, 12); // Position of closing quote
        assert_eq!(result.has_escapes, true);
    }
}

#[test]
fn test_scan_string_quote_only() {
    let input = b"\"";
    for features in every_feature_set() {
        let result = scan_string(input, 0, features);
        assert_eq!(result.position, 0);
        assert_eq!(result.has_escapes, false);
    }
}

#[test]
fn test_skip_whitespace() {
    let input = b"   \t\n\r  hello";
    for features in every_feature_set() {
        let pos = skip_whitespace(input, 0, features);
        assert_eq!(pos, 8);
        assert_eq!(input[pos], b'h');
    }
}

#[test]
fn test_skip_whitespace_none() {
    let input = b"hello world";
    for features in every_feature_set() {
        let pos = skip_whitespace(input, 0, features);
        assert_eq!(pos, 0);
    }
}

#[test]
fn test_find_escape_needed() {
    let input = b"hello world";
    for features in every_feature_set() {
        let pos = find_escape_needed(input, 0, features);
        assert_eq!(pos, input.len());
    }
}

#[test]
fn test_find_escape_needed_quote() {
    let input = b"hello\"world";
    for features in every_feature_set() {
        let pos = find_escape_needed(input, 0, features);
        assert_eq!(pos, 5);
    }
}

#[test]
fn test_find_escape_needed_control() {
    let input = b"hello\nworld";
    for features in every_feature_set() {
        let pos = find_escape_needed(input, 0, features);
        assert_eq!(pos, 5);
    }
}

#[test]
fn select_level_prefers_widest() {
    let all = CpuFeatures { avx2: true, sse2: true, neon: true };
    assert_eq!(select_simd_level(all), SimdLevel::Avx2);
    let sse = CpuFeatures { avx2: false, sse2: true, neon: true };
    assert_eq!(select_simd_level(sse), SimdLevel::Sse2);
    let neon = CpuFeatures { avx2: false, sse2: false, neon: true };
    assert_eq!(select_simd_level(neon), SimdLevel::Neon);
    let none = CpuFeatures { avx2: false, sse2: false, neon: false };
    assert_eq!(select_simd_level(none), SimdLevel::Scalar);
}

#[test]
fn scan_long_body_without_escapes() {
    let mut input = vec![b'x'; 100];
    input.push(b'"');
    input.extend_from_slice(b"tail");
    for r in scan_all_forms(&input, 0) {
        assert_eq!(r, ScanResult { position: 100, has_escapes: false });
    }
    for r in scan_all_forms(&input, 37) {
        assert_eq!(r, ScanResult { position: 100, has_escapes: false });
    }
}

#[test]
fn scan_keeps_escape_flag_across_chunk_widths() {
    // An escape inside the first 32-byte chunk, the closing quote in the
    // 16..31 bytes that follow it.
    let mut input = vec![b'a'; 3];
    input.extend_from_slice(b"\\n");
    input.extend_from_slice(&[b'b'; 40]);
    input.push(b'"');
    assert_eq!(input.len(), 46);
    for r in scan_all_forms(&input, 0) {
        assert_eq!(r, ScanResult { position: 45, has_escapes: true });
    }
}

#[test]
fn scan_passes_over_escaped_quote() {
    let input = b"a\\\"b\"c";
    for r in scan_all_forms(input, 0) {
        assert_eq!(r, ScanResult { position: 4, has_escapes: true });
    }
    // The same inside long chunks.
    let mut long = vec![b'z'; 20];
    long.extend_from_slice(b"\\\"");
    long.extend_from_slice(&[b'z'; 30]);
    long.extend_from_slice(b"\\\\\"");
    for r in scan_all_forms(&long, 0) {
        assert_eq!(r, ScanResult { position: 54, has_escapes: true });
    }
}

#[test]
fn scan_unterminated_reports_length() {
    let input = b"abc";
    for r in scan_all_forms(input, 0) {
        assert_eq!(r, ScanResult { position: 3, has_escapes: false });
    }
    // A trailing lone backslash ends at the length too.
    let input = b"abc\\";
    for r in scan_all_forms(input, 0) {
        assert_eq!(r, ScanResult { position: 4, has_escapes: true });
    }
    let mut long = vec![b'q'; 47];
    long.push(b'\\');
    for r in scan_all_forms(&long, 0) {
        assert_eq!(r, ScanResult { position: 48, has_escapes: true });
    }
}

#[test]
fn scan_start_past_end_reports_length() {
    let input = b"abc";
    for r in scan_all_forms(input, 10) {
        assert_eq!(r, ScanResult { position: 3, has_escapes: false });
    }
    for r in scan_all_forms(input, 3) {
        assert_eq!(r, ScanResult { position: 3, has_escapes: false });
    }
}

#[test]
fn skip_long_whitespace_runs() {
    let mut input = Vec::new();
    for i in 0..70 {
        input.push([b' ', b'\t', b'\n', b'\r'][i % 4]);
    }
    input.push(b'{');
    for r in skip_all_forms(&input, 0) {
        assert_eq!(r, 70);
    }
    for r in skip_all_forms(&input, 5) {
        assert_eq!(r, 70);
    }
    input.pop();
    for r in skip_all_forms(&input, 0) {
        assert_eq!(r, 70);
    }
}

#[test]
fn skip_stops_at_first_non_whitespace_in_chunk() {
    let mut input = vec![b' '; 40];
    input[33] = b'x';
    input[36] = b'y';
    for r in skip_all_forms(&input, 0) {
        assert_eq!(r, 33);
    }
    input[17] = 0x0b; // vertical tab is not JSON whitespace
    for r in skip_all_forms(&input, 0) {
        assert_eq!(r, 17);
    }
}

#[test]
fn skip_start_past_end_stays() {
    let input = b"  ";
    for r in skip_all_forms(input, 9) {
        assert_eq!(r, 9);
    }
    for r in skip_all_forms(input, 2) {
        assert_eq!(r, 2);
    }
}

#[test]
fn find_escape_in_long_chunks() {
    let mut input = vec![b'a'; 80];
    for r in find_all_forms(&input, 0) {
        assert_eq!(r, 80);
    }
    input[70] = b'\\';
    for r in find_all_forms(&input, 0) {
        assert_eq!(r, 70);
    }
    input[40] = 0x1f; // the last control character
    for r in find_all_forms(&input, 0) {
        assert_eq!(r, 40);
    }
    input[20] = 0x00;
    for r in find_all_forms(&input, 0) {
        assert_eq!(r, 20);
    }
    for r in find_all_forms(&input, 41) {
        assert_eq!(r, 70);
    }
}

#[test]
fn find_escape_ignores_non_ascii() {
    // UTF-8 continuation and lead bytes never need escaping.
    let mut input = "héllo wörld ✓ ".repeat(4).into_bytes();
    let n = input.len();
    for r in find_all_forms(&input, 0) {
        assert_eq!(r, n);
    }
    input.push(b'"');
    for r in find_all_forms(&input, 0) {
        assert_eq!(r, n);
    }
    let spaces_and_del = vec![0x20u8, 0x7f, 0xff, 0x80, 0x21];
    for r in find_all_forms(&spaces_and_del, 0) {
        assert_eq!(r, 5);
    }
}

#[test]
fn find_escape_start_past_end_reports_length() {
    let input = b"abc";
    for r in find_all_forms(input, 7) {
        assert_eq!(r, 3);
    }
}

#[test]
fn lane_masks_mark_class_members() {
    let mut input = vec![b'a'; 40];
    input[0] = b'"';
    input[5] = b'\\';
    input[15] = b'"';
    input[31] = b'\\';
    assert_eq!(movemask16(&input, 0, ByteClass::StringSpecial), 0b1000_0000_0010_0001);
    assert_eq!(movemask32(&input, 0, ByteClass::StringSpecial), 0x8000_8021);
    assert_eq!(movemask16(&input, 1, ByteClass::StringSpecial), 0b0100_0000_0001_0000);
    let ws = b" \t\n\rx               ";
    assert_eq!(movemask16(ws, 0, ByteClass::Whitespace), 0xffef);
    let ctl = [0u8, 0x1f, 0x20, b'"', 0x7f, 0x80, b'\\', 0x0a, 1, 2, 3, 4, 5, 6, 7, b'a'];
    assert_eq!(movemask16(&ctl, 0, ByteClass::NeedsEscape), 0b0111_1111_1100_1011);
}

#[test]
fn writer_loop_copies_runs_between_escapes() {
    // Walk a text the way a writer does: copy each run that needs no escaping,
    // then handle the byte that does.
    let text = b"say \"hi\"\n\tand\\bye";
    for features in every_feature_set() {
        let mut stops = Vec::new();
        let mut start = 0;
        while start < text.len() {
            let pos = find_escape_needed(text, start, features);
            if pos == text.len() {
                break;
            }
            stops.push(pos);
            start = pos + 1;
        }
        assert_eq!(stops, vec![4, 7, 8, 9, 13]);
    }
}

#[test]
fn raw_body_scans_back_to_its_length() {
    let body = b"plain text with no specials at all, long enough for two chunks";
    for features in every_feature_set() {
        assert_eq!(find_escape_needed(body, 0, features), body.len());
        let mut written = body.to_vec();
        written.push(b'"');
        let r = scan_string(&written, 0, features);
        assert_eq!(r, ScanResult { position: body.len(), has_escapes: false });
    }
}

#[test]
fn skip_whitespace_again_does_not_move() {
    let input = b"   \n  [1, 2]";
    for features in every_feature_set() {
        let p = skip_whitespace(input, 0, features);
        assert_eq!(p, 6);
        assert_eq!(skip_whitespace(input, p, features), p);
    }
}
