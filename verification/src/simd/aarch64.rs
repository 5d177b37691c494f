//! The NEON form for AArch64: 16 bytes per step. Each chunk is reduced to a
//! lane mask (NEON has no movemask, so the mask is assembled lane by lane) and
//! the first interesting lane is found with `trailing_zeros`; the bytes after the
//! last full chunk go to the scalar form.
use super::ScanResult;
use super::fallback::{scan_string_scalar_from, skip_whitespace_scalar, find_escape_needed_scalar};
use super::mask::{
    ByteClass, lane16, movemask16, lemma_lowest_lane16, lemma_lowest_clear_lane16,
    lemma_extreme_masks16,
};
use super::spec::{
    BACKSLASH, string_scan, whitespace_end, escape_search_end, is_string_special,
    is_json_whitespace, needs_escape, lemma_string_scan_plain_run,
};
use vstd::prelude::*;

verus! {

/// NEON-width string scanning: the closing quote of a string body starting at
/// `start`, and whether an escape sequence comes before it.
pub fn scan_string_neon(bytes: &[u8], start: usize) -> (r: ScanResult)
    ensures
        (r.position as int, r.has_escapes) == string_scan(bytes@, start as nat, false),
{
    let len = bytes.len();
    let mut pos = start;
    let mut esc = false;
    let ghost target = string_scan(bytes@, start as nat, false);
    while len >= 16 && pos <= len - 16
        invariant
            len == bytes@.len(),
            target == string_scan(bytes@, start as nat, false),
            string_scan(bytes@, pos as nat, esc) == target,
        decreases len + 1 - pos,
    {
        let mask = movemask16(bytes, pos, ByteClass::StringSpecial);
        if mask != 0 {
            proof {
                lemma_lowest_lane16(mask);
            }
            let offset = mask.trailing_zeros() as usize;
            let found_pos = pos + offset;
            proof {
                assert forall|i: int| pos <= i < found_pos implies !is_string_special(
                    #[trigger] bytes@[i],
                ) by {
                    let j = (i - pos) as u16;
                    assert(pos + j == i);
                    assert(!lane16(mask, j));
                }
                lemma_string_scan_plain_run(bytes@, pos as nat, found_pos as nat, esc);
                assert(lane16(mask, offset as u16));
            }
            if bytes[found_pos] == BACKSLASH {
                esc = true;
                if len - found_pos >= 2 {
                    pos = found_pos + 2;
                } else {
                    assert(string_scan(bytes@, (found_pos + 2) as nat, true) == string_scan(
                        bytes@,
                        len as nat,
                        true,
                    ));
                    pos = len;
                }
            } else {
                return ScanResult { position: found_pos, has_escapes: esc };
            }
        } else {
            proof {
                lemma_extreme_masks16(mask);
                assert forall|i: int| pos <= i < pos + 16 implies !is_string_special(
                    #[trigger] bytes@[i],
                ) by {
                    let j = (i - pos) as u16;
                    assert(pos + j == i);
                    assert(!lane16(mask, j));
                }
                lemma_string_scan_plain_run(bytes@, pos as nat, (pos + 16) as nat, esc);
            }
            pos = pos + 16;
        }
    }
    scan_string_scalar_from(bytes, pos, esc)
}

/// Whitespace skipping 16 bytes per step.
pub fn skip_whitespace_neon(bytes: &[u8], start: usize) -> (r: usize)
    ensures
        whitespace_end(bytes@, start as int, r as int),
{
    let len = bytes.len();
    let mut pos = start;
    while len >= 16 && pos <= len - 16
        invariant
            len == bytes@.len(),
            start <= pos,
            pos > start ==> pos <= len,
            forall|i: int| start <= i < pos ==> is_json_whitespace(#[trigger] bytes@[i]),
        decreases len + 1 - pos,
    {
        let mask = movemask16(bytes, pos, ByteClass::Whitespace);
        if mask != 0xffff {
            proof {
                lemma_lowest_clear_lane16(mask);
            }
            let inverted = !mask;
            let offset = inverted.trailing_zeros() as usize;
            proof {
                assert forall|i: int| pos <= i < pos + offset implies is_json_whitespace(
                    #[trigger] bytes@[i],
                ) by {
                    let j = (i - pos) as u16;
                    assert(pos + j == i);
                    assert(lane16(mask, j));
                }
                assert(!lane16(mask, offset as u16));
            }
            return pos + offset;
        }
        proof {
            lemma_extreme_masks16(mask);
            assert forall|i: int| pos <= i < pos + 16 implies is_json_whitespace(
                #[trigger] bytes@[i],
            ) by {
                let j = (i - pos) as u16;
                assert(pos + j == i);
                assert(lane16(mask, j));
            }
        }
        pos = pos + 16;
    }
    skip_whitespace_scalar(bytes, pos)
}

/// Escape detection 16 bytes per step: the first byte at or after `start`
/// that is a control character, `"` or `\`, or the length if there is none.
pub fn find_escape_needed_neon(bytes: &[u8], start: usize) -> (r: usize)
    ensures
        escape_search_end(bytes@, start as int, r as int),
{
    let len = bytes.len();
    let mut pos = start;
    while len >= 16 && pos <= len - 16
        invariant
            len == bytes@.len(),
            start <= pos,
            pos > start ==> pos <= len,
            forall|i: int| start <= i < pos ==> !needs_escape(#[trigger] bytes@[i]),
        decreases len + 1 - pos,
    {
        let mask = movemask16(bytes, pos, ByteClass::NeedsEscape);
        if mask != 0 {
            proof {
                lemma_lowest_lane16(mask);
            }
            let offset = mask.trailing_zeros() as usize;
            proof {
                assert forall|i: int| pos <= i < pos + offset implies !needs_escape(
                    #[trigger] bytes@[i],
                ) by {
                    let j = (i - pos) as u16;
                    assert(pos + j == i);
                    assert(!lane16(mask, j));
                }
                assert(lane16(mask, offset as u16));
            }
            return pos + offset;
        }
        proof {
            lemma_extreme_masks16(mask);
            assert forall|i: int| pos <= i < pos + 16 implies !needs_escape(#[trigger] bytes@[i]) by {
                let j = (i - pos) as u16;
                assert(pos + j == i);
                assert(!lane16(mask, j));
            }
        }
        pos = pos + 16;
    }
    find_escape_needed_scalar(bytes, pos)
}

} // verus!
