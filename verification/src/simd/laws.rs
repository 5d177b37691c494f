//! What the scanners compute, stated over raw byte values and positions only,
//! independently of how the specifications in `spec` are phrased.
use super::spec::{
    string_scan, whitespace_end, escape_search_end, is_json_whitespace, needs_escape,
    is_string_special,
};
use vstd::prelude::*;

verus! {

/// The number of backslashes (0x5c) that stand directly before position `i`,
/// counting no further back than `start`.
pub open spec fn backslash_run(s: Seq<u8>, start: int, i: int) -> nat
    decreases i - start,
{
    if start < i && i <= s.len() && s[i - 1] == 0x5cu8 {
        1 + backslash_run(s, start, i - 1)
    } else {
        0
    }
}

/// Whitespace is exactly space, tab, line feed and carriage return.
pub proof fn lemma_whitespace_bytes(b: u8)
    ensures
        is_json_whitespace(b) <==> (b == 0x20u8 || b == 0x09u8 || b == 0x0au8 || b == 0x0du8),
{
}

/// The bytes that need escaping are exactly the control characters
/// (0x00..=0x1f), the quote (0x22) and the backslash (0x5c).
pub proof fn lemma_escape_bytes(b: u8)
    ensures
        needs_escape(b) <==> (b < 0x20u8 || b == 0x22u8 || b == 0x5cu8),
{
}

/// Whitespace skipping passes over space, tab, line feed and carriage return
/// and nothing else, and stops on the first other byte (or at the end).
pub proof fn lemma_skip_whitespace_stops_on_first_other_byte(s: Seq<u8>, start: int, r: int)
    requires
        0 <= start,
        whitespace_end(s, start, r),
    ensures
        start >= s.len() ==> r == start,
        start < s.len() ==> start <= r <= s.len(),
        forall|i: int|
            start <= i < r ==> (#[trigger] s[i] == 0x20u8 || s[i] == 0x09u8 || s[i] == 0x0au8
                || s[i] == 0x0du8),
        r < s.len() ==> !(s[r] == 0x20u8 || s[r] == 0x09u8 || s[r] == 0x0au8 || s[r] == 0x0du8),
{
    assert forall|i: int| start <= i < r implies (#[trigger] s[i] == 0x20u8 || s[i] == 0x09u8
        || s[i] == 0x0au8 || s[i] == 0x0du8) by {
        lemma_whitespace_bytes(s[i]);
    }
    if r < s.len() {
        lemma_whitespace_bytes(s[r]);
    }
}

/// Escape detection stops on the first control character, quote or backslash
/// at or after `start`, and passes over every other byte; with none, it stops
/// at the end.
pub proof fn lemma_find_escape_stops_on_first_escapable_byte(s: Seq<u8>, start: int, r: int)
    requires
        0 <= start,
        escape_search_end(s, start, r),
    ensures
        start >= s.len() ==> r == s.len(),
        start < s.len() ==> start <= r <= s.len(),
        forall|i: int|
            start <= i < r ==> (#[trigger] s[i] >= 0x20u8 && s[i] != 0x22u8 && s[i] != 0x5cu8),
        r < s.len() ==> (s[r] < 0x20u8 || s[r] == 0x22u8 || s[r] == 0x5cu8),
{
    assert forall|i: int| start <= i < r implies (#[trigger] s[i] >= 0x20u8 && s[i] != 0x22u8
        && s[i] != 0x5cu8) by {
        lemma_escape_bytes(s[i]);
    }
    if r < s.len() {
        lemma_escape_bytes(s[r]);
    }
}

proof fn lemma_scan_walk(s: Seq<u8>, start: nat, pos: nat, esc: bool)
    requires
        start <= pos,
        backslash_run(s, start as int, pos as int) % 2 == 0,
    ensures
        ({
            let (p, e) = string_scan(s, pos, esc);
            &&& p < s.len() ==> s[p] == 0x22u8 && backslash_run(s, start as int, p) % 2 == 0
            &&& forall|q: int|
                pos <= q < p && #[trigger] s[q] == 0x22u8 ==> backslash_run(s, start as int, q) % 2
                    == 1
        }),
    decreases s.len() + 1 - pos,
{
    let (p, e) = string_scan(s, pos, esc);
    if pos >= s.len() {
    } else if s[pos as int] == 0x22u8 {
    } else if s[pos as int] == 0x5cu8 {
        let next = pos + 2;
        assert(backslash_run(s, start as int, pos + 1int) == 1 + backslash_run(s, start as int, pos as int));
        if next <= s.len() {
            if s[pos + 1int] == 0x5cu8 {
                assert(backslash_run(s, start as int, next as int) == 1 + backslash_run(s, start as int, pos + 1int));
            } else {
                assert(backslash_run(s, start as int, next as int) == 0);
            }
        } else {
            assert(backslash_run(s, start as int, next as int) == 0);
        }
        lemma_scan_walk(s, start, next, true);
        assert forall|q: int| pos <= q < p && #[trigger] s[q] == 0x22u8 implies backslash_run(
            s,
            start as int,
            q,
        ) % 2 == 1 by {
            if q == pos + 1 {
            } else {
                assert(next <= q);
            }
        }
    } else {
        assert(backslash_run(s, start as int, pos + 1int) == 0);
        lemma_scan_walk(s, start, pos + 1, esc);
        assert forall|q: int| pos <= q < p && #[trigger] s[q] == 0x22u8 implies backslash_run(
            s,
            start as int,
            q,
        ) % 2 == 1 by {
            if q > pos {
                assert(pos + 1 <= q);
            }
        }
    }
}

/// A string scan from `start` stops at the first quote (0x22) at or after
/// `start` that is preceded by an even number of backslashes (0x5c) counted
/// back to `start` — every backslash escapes exactly the one byte after it,
/// whatever escapes came before — or at the end of the input if there is no
/// such quote. The escape flag comes out set exactly when it went in set or a
/// backslash lies between `start` and the stop.
pub proof fn lemma_scan_stops_at_first_unescaped_quote(s: Seq<u8>, start: nat, esc: bool)
    ensures
        ({
            let (p, e) = string_scan(s, start, esc);
            &&& start <= s.len() ==> start <= p
            &&& p <= s.len()
            &&& start > s.len() ==> p == s.len()
            &&& p < s.len() ==> s[p] == 0x22u8 && backslash_run(s, start as int, p) % 2 == 0
            &&& forall|q: int|
                start <= q < p && #[trigger] s[q] == 0x22u8 ==> backslash_run(s, start as int, q)
                    % 2 == 1
            &&& e == (esc || exists|i: int| start <= i < p && #[trigger] s[i] == 0x5cu8)
        }),
{
    assert(backslash_run(s, start as int, start as int) == 0);
    lemma_scan_walk(s, start, start, esc);
    super::spec::lemma_string_scan_shape(s, start, esc);
    let (p, e) = string_scan(s, start, esc);
    assert(e == (esc || exists|i: int| start <= i < p && #[trigger] s[i] == 0x5cu8));
}

} // verus!
