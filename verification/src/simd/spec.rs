//! Mathematical descriptions of what each scanning operation computes.
use vstd::prelude::*;

verus! {

/// `"`
pub const QUOTE: u8 = 0x22;
/// `\\`
pub const BACKSLASH: u8 = 0x5c;
/// ` `
pub const SPACE: u8 = 0x20;
/// horizontal tab
pub const TAB: u8 = 0x09;
/// line feed
pub const LINE_FEED: u8 = 0x0a;
/// carriage return
pub const CARRIAGE_RETURN: u8 = 0x0d;
/// the first byte that is not a control character
pub const FIRST_PRINTABLE: u8 = 0x20;

/// `"` or `\`: the bytes that end or interrupt a plain run inside a JSON string.
pub open spec fn is_string_special(b: u8) -> bool {
    b == QUOTE || b == BACKSLASH
}

/// JSON insignificant whitespace: space, tab, line feed, carriage return.
pub open spec fn is_json_whitespace(b: u8) -> bool {
    b == SPACE || b == TAB || b == LINE_FEED || b == CARRIAGE_RETURN
}

/// Bytes that may not appear raw inside a JSON string: control characters,
/// the quote and the backslash.
pub open spec fn needs_escape(b: u8) -> bool {
    b < FIRST_PRINTABLE || b == QUOTE || b == BACKSLASH
}

/// Walk a string body from `pos`, having already seen an escape iff `esc`.
/// A backslash consumes itself and the byte after it; an unescaped quote ends
/// the walk. Running off the end yields the length of the input.
pub open spec fn string_scan(s: Seq<u8>, pos: nat, esc: bool) -> (int, bool)
    decreases s.len() + 1 - pos,
{
    if pos >= s.len() {
        (s.len() as int, esc)
    } else if s[pos as int] == QUOTE {
        (pos as int, esc)
    } else if s[pos as int] == BACKSLASH {
        string_scan(s, pos + 2, true)
    } else {
        string_scan(s, pos + 1, esc)
    }
}

/// `r` is where whitespace skipping from `start` stops: the first byte at or
/// after `start` that is not whitespace, the length if there is none, and
/// `start` itself when `start` lies at or past the end.
pub open spec fn whitespace_end(s: Seq<u8>, start: int, r: int) -> bool {
    if start >= s.len() {
        r == start
    } else {
        &&& start <= r <= s.len()
        &&& forall|i: int| start <= i < r ==> is_json_whitespace(#[trigger] s[i])
        &&& r < s.len() ==> !is_json_whitespace(s[r])
    }
}

/// `r` is the position of the first byte at or after `start` that needs
/// escaping, or the length of the input if there is none.
pub open spec fn escape_search_end(s: Seq<u8>, start: int, r: int) -> bool {
    if start >= s.len() {
        r == s.len()
    } else {
        &&& start <= r <= s.len()
        &&& forall|i: int| start <= i < r ==> !needs_escape(#[trigger] s[i])
        &&& r < s.len() ==> needs_escape(s[r])
    }
}

/// A run of bytes with no quote and no backslash is passed over unchanged.
pub proof fn lemma_string_scan_plain_run(s: Seq<u8>, p: nat, q: nat, esc: bool)
    requires
        p <= q <= s.len(),
        forall|i: int| p <= i < q ==> !is_string_special(#[trigger] s[i]),
    ensures
        string_scan(s, p, esc) == string_scan(s, q, esc),
    decreases q - p,
{
    if p < q {
        assert(!is_string_special(s[p as int]));
        lemma_string_scan_plain_run(s, p + 1, q, esc);
    }
}

/// Where a string scan stops and what its flag says: the scan never stops
/// before `start` (unless `start` is past the end, when it stops at the end),
/// never past the end, and where it stops inside the input there is a quote.
/// The flag ends up set exactly when it was set already or a backslash lies in
/// the scanned range; when it ends up clear, the scanned range holds neither a
/// quote nor a backslash, so it is the string's contents exactly as written.
pub proof fn lemma_string_scan_shape(s: Seq<u8>, start: nat, esc: bool)
    ensures
        ({
            let (p, e) = string_scan(s, start, esc);
            &&& start <= s.len() ==> start <= p
            &&& p <= s.len()
            &&& start > s.len() ==> p == s.len()
            &&& p < s.len() ==> s[p] == QUOTE
            &&& e == (esc || exists|i: int| start <= i < p && #[trigger] s[i] == BACKSLASH)
            &&& !e ==> forall|i: int| start <= i < p ==> !is_string_special(#[trigger] s[i])
        }),
    decreases s.len() + 1 - start,
{
    let (p, e) = string_scan(s, start, esc);
    if start >= s.len() {
    } else if s[start as int] == QUOTE {
    } else if s[start as int] == BACKSLASH {
        lemma_string_scan_shape(s, start + 2, true);
        assert(start as int <= start < p && s[start as int] == BACKSLASH);
    } else {
        lemma_string_scan_shape(s, start + 1, esc);
        if exists|i: int| start <= i < p && #[trigger] s[i] == BACKSLASH {
            let i = choose|i: int| start <= i < p && #[trigger] s[i] == BACKSLASH;
            assert(start + 1 <= i < p && s[i] == BACKSLASH);
        }
        if !e {
            assert forall|i: int| start <= i < p implies !is_string_special(#[trigger] s[i]) by {
                if i > start {
                    assert(start + 1 <= i < p);
                }
            }
        }
    }
}

/// Whitespace skipping has one stopping point.
pub proof fn lemma_whitespace_end_unique(s: Seq<u8>, start: int, r1: int, r2: int)
    requires
        whitespace_end(s, start, r1),
        whitespace_end(s, start, r2),
    ensures
        r1 == r2,
{
    if start < s.len() {
        if r1 < r2 {
            assert(is_json_whitespace(s[r1]));
        } else if r2 < r1 {
            assert(is_json_whitespace(s[r2]));
        }
    }
}

/// Skipping whitespace again from where skipping stopped does not move.
pub proof fn lemma_skip_whitespace_idempotent(s: Seq<u8>, start: int, r: int)
    requires
        whitespace_end(s, start, r),
    ensures
        whitespace_end(s, r, r),
{
}

/// Escape detection has one stopping point.
pub proof fn lemma_escape_search_end_unique(s: Seq<u8>, start: int, r1: int, r2: int)
    requires
        escape_search_end(s, start, r1),
        escape_search_end(s, start, r2),
    ensures
        r1 == r2,
{
    if start < s.len() {
        if r1 < r2 {
            assert(!needs_escape(s[r1]));
        } else if r2 < r1 {
            assert(!needs_escape(s[r2]));
        }
    }
}

/// Searching again from the byte that was found finds that same byte.
pub proof fn lemma_find_escape_needed_stable(s: Seq<u8>, start: int, r: int)
    requires
        escape_search_end(s, start, r),
    ensures
        escape_search_end(s, r, r),
{
}

/// When the first byte at or after `start` that needs escaping is a quote,
/// scanning a string body from `start` stops at that quote and sees no escape.
pub proof fn lemma_escape_search_meets_scan(s: Seq<u8>, start: nat, r: int)
    requires
        escape_search_end(s, start as int, r),
        start < s.len(),
        r < s.len(),
        s[r] == QUOTE,
    ensures
        string_scan(s, start, false) == (r, false),
{
    assert forall|i: int| start <= i < r implies !is_string_special(#[trigger] s[i]) by {
        assert(!needs_escape(s[i]));
    }
    lemma_string_scan_plain_run(s, start, r as nat, false);
}

/// A body in which nothing needs escaping, written as it stands and closed by a
/// quote, scans back to exactly its own length with no escapes.
pub proof fn lemma_raw_body_scans_back(body: Seq<u8>)
    requires
        escape_search_end(body, 0, body.len() as int),
    ensures
        string_scan(body.push(QUOTE), 0, false) == (body.len() as int, false),
{
    let s = body.push(QUOTE);
    assert forall|i: int| 0 <= i < body.len() implies !is_string_special(#[trigger] s[i]) by {
        assert(s[i] == body[i]);
        assert(!needs_escape(body[i]));
    }
    lemma_string_scan_plain_run(s, 0, body.len(), false);
    assert(s[body.len() as int] == QUOTE);
}

} // verus!
