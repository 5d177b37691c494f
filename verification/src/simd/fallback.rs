//! Scalar implementations, one byte per step. The chunked forms use them for the
//! bytes that remain after the last full chunk.
use super::ScanResult;
use super::spec::{QUOTE, BACKSLASH, SPACE, TAB, LINE_FEED, CARRIAGE_RETURN, FIRST_PRINTABLE, string_scan, whitespace_end, escape_search_end, is_json_whitespace, needs_escape};
use vstd::prelude::*;

verus! {

/// Continue a string scan at `start` with the escape flag already `has_escapes`.
pub(crate) fn scan_string_scalar_from(bytes: &[u8], start: usize, has_escapes: bool) -> (r:
    ScanResult)
    ensures
        (r.position as int, r.has_escapes) == string_scan(bytes@, start as nat, has_escapes),
{
    let len = bytes.len();
    let mut pos = start;
    let mut esc = has_escapes;
    let ghost target = string_scan(bytes@, start as nat, has_escapes);
    while pos < len
        invariant
            len == bytes@.len(),
            target == string_scan(bytes@, start as nat, has_escapes),
            string_scan(bytes@, pos as nat, esc) == target,
        decreases len - pos,
    {
        let byte = bytes[pos];
        if byte == QUOTE {
            return ScanResult { position: pos, has_escapes: esc };
        } else if byte == BACKSLASH {
            esc = true;
            if len - pos >= 2 {
                pos = pos + 2;
            } else {
                assert(string_scan(bytes@, (pos + 2) as nat, true) == string_scan(bytes@, len as nat, true));
                pos = len;
            }
        } else {
            pos = pos + 1;
        }
    }
    ScanResult { position: len, has_escapes: esc }
}

/// Scalar string scanning: the position of the closing quote of a string body
/// starting at `start`, and whether any escape sequence comes before it.
pub fn scan_string_scalar(bytes: &[u8], start: usize) -> (r: ScanResult)
    ensures
        (r.position as int, r.has_escapes) == string_scan(bytes@, start as nat, false),
{
    scan_string_scalar_from(bytes, start, false)
}

/// Scalar whitespace skipping.
pub fn skip_whitespace_scalar(bytes: &[u8], start: usize) -> (r: usize)
    ensures
        whitespace_end(bytes@, start as int, r as int),
{
    let len = bytes.len();
    if start >= len {
        return start;
    }
    let mut pos = start;
    while pos < len
        invariant
            len == bytes@.len(),
            start <= pos <= len,
            forall|i: int| start <= i < pos ==> is_json_whitespace(#[trigger] bytes@[i]),
        decreases len - pos,
    {
        let byte = bytes[pos];
        if byte == SPACE || byte == TAB || byte == LINE_FEED || byte == CARRIAGE_RETURN {
            pos = pos + 1;
        } else {
            return pos;
        }
    }
    pos
}

/// Scalar escape detection.
pub fn find_escape_needed_scalar(bytes: &[u8], start: usize) -> (r: usize)
    ensures
        escape_search_end(bytes@, start as int, r as int),
{
    let len = bytes.len();
    if start >= len {
        return len;
    }
    let mut pos = start;
    while pos < len
        invariant
            len == bytes@.len(),
            start <= pos <= len,
            forall|i: int| start <= i < pos ==> !needs_escape(#[trigger] bytes@[i]),
        decreases len - pos,
    {
        let byte = bytes[pos];
        if byte < FIRST_PRINTABLE || byte == QUOTE || byte == BACKSLASH {
            return pos;
        }
        pos = pos + 1;
    }
    pos
}

} // verus!
