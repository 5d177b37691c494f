//! Lane masks: one bit per byte of a 16- or 32-byte chunk, set when the byte
//! belongs to a class. This is what a vector compare followed by a movemask
//! produces; here it is computed lane by lane.
use super::spec::{
    QUOTE, BACKSLASH, SPACE, TAB, LINE_FEED, CARRIAGE_RETURN, FIRST_PRINTABLE,
    is_string_special, is_json_whitespace, needs_escape,
};
use vstd::prelude::*;

verus! {

/// The byte classes that the scanners look for.
#[derive(Clone, Copy)]
pub enum ByteClass {
    /// `"` or `\`
    StringSpecial,
    /// space, tab, line feed, carriage return
    Whitespace,
    /// control characters, `"` and `\`
    NeedsEscape,
}

impl ByteClass {
    pub open spec fn contains(self, b: u8) -> bool {
        match self {
            ByteClass::StringSpecial => is_string_special(b),
            ByteClass::Whitespace => is_json_whitespace(b),
            ByteClass::NeedsEscape => needs_escape(b),
        }
    }

    /// Whether `b` belongs to the class.
    pub fn matches(&self, b: u8) -> (r: bool)
        ensures
            r == self.contains(b),
    {
        match self {
            ByteClass::StringSpecial => b == QUOTE || b == BACKSLASH,
            ByteClass::Whitespace => b == SPACE || b == TAB || b == LINE_FEED || b
                == CARRIAGE_RETURN,
            ByteClass::NeedsEscape => b < FIRST_PRINTABLE || b == QUOTE || b == BACKSLASH,
        }
    }
}

/// Bit `j` of a 16-lane mask.
pub open spec fn lane16(mask: u16, j: u16) -> bool {
    (mask >> j) & 1u16 == 1u16
}

/// Bit `j` of a 32-lane mask.
pub open spec fn lane32(mask: u32, j: u32) -> bool {
    (mask >> j) & 1u32 == 1u32
}

proof fn lemma_set_lane16(m: u16, i: u16, j: u16)
    requires
        i < 16,
        j < 16,
    ensures
        lane16(m | (1u16 << i), j) == (j == i || lane16(m, j)),
{
    assert(((m | (1u16 << i)) >> j) & 1u16 == 1u16 <==> (j == i || (m >> j) & 1u16 == 1u16))
        by (bit_vector)
        requires
            i < 16,
            j < 16,
    ;
}

proof fn lemma_set_lane32(m: u32, i: u32, j: u32)
    requires
        i < 32,
        j < 32,
    ensures
        lane32(m | (1u32 << i), j) == (j == i || lane32(m, j)),
{
    assert(((m | (1u32 << i)) >> j) & 1u32 == 1u32 <==> (j == i || (m >> j) & 1u32 == 1u32))
        by (bit_vector)
        requires
            i < 32,
            j < 32,
    ;
}

/// A mask with bit `j` set exactly when `bytes[pos + j]` belongs to `class`,
/// for the 16 bytes starting at `pos`.
pub fn movemask16(bytes: &[u8], pos: usize, class: ByteClass) -> (mask: u16)
    requires
        pos + 16 <= bytes@.len(),
    ensures
        forall|j: u16| j < 16 ==> (lane16(mask, j) <==> class.contains(#[trigger] bytes@[pos + j])),
{
    let mut mask: u16 = 0;
    let mut i: u16 = 0;
    assert forall|j: u16| j < 16 implies !lane16(0u16, j) by {
        assert((0u16 >> j) & 1u16 == 0u16) by (bit_vector);
    }
    while i < 16
        invariant
            i <= 16,
            pos + 16 <= bytes.len(),
            forall|j: u16| j < i ==> (lane16(mask, j) <==> class.contains(#[trigger] bytes@[pos + j])),
            forall|j: u16| i <= j < 16 ==> !#[trigger] lane16(mask, j),
        decreases 16 - i,
    {
        let b = bytes[pos + i as usize];
        if class.matches(b) {
            assert forall|j: u16| j < 16 implies #[trigger] lane16(mask | (1u16 << i), j) == (j == i
                || lane16(mask, j)) by {
                lemma_set_lane16(mask, i, j);
            }
            mask = mask | (1u16 << i);
        }
        i = i + 1;
    }
    mask
}

/// A mask with bit `j` set exactly when `bytes[pos + j]` belongs to `class`,
/// for the 32 bytes starting at `pos`.
pub fn movemask32(bytes: &[u8], pos: usize, class: ByteClass) -> (mask: u32)
    requires
        pos + 32 <= bytes@.len(),
    ensures
        forall|j: u32| j < 32 ==> (lane32(mask, j) <==> class.contains(#[trigger] bytes@[pos + j])),
{
    let mut mask: u32 = 0;
    let mut i: u32 = 0;
    assert forall|j: u32| j < 32 implies !lane32(0u32, j) by {
        assert((0u32 >> j) & 1u32 == 0u32) by (bit_vector);
    }
    while i < 32
        invariant
            i <= 32,
            pos + 32 <= bytes.len(),
            forall|j: u32| j < i ==> (lane32(mask, j) <==> class.contains(#[trigger] bytes@[pos + j])),
            forall|j: u32| i <= j < 32 ==> !#[trigger] lane32(mask, j),
        decreases 32 - i,
    {
        let b = bytes[pos + i as usize];
        if class.matches(b) {
            assert forall|j: u32| j < 32 implies #[trigger] lane32(mask | (1u32 << i), j) == (j == i
                || lane32(mask, j)) by {
                lemma_set_lane32(mask, i, j);
            }
            mask = mask | (1u32 << i);
        }
        i = i + 1;
    }
    mask
}

/// The lowest set lane of a non-empty 16-lane mask is the one `trailing_zeros` names.
pub proof fn lemma_lowest_lane16(mask: u16)
    requires
        mask != 0,
    ensures
        mask.trailing_zeros() < 16,
        lane16(mask, mask.trailing_zeros() as u16),
        forall|j: u16| j < mask.trailing_zeros() ==> !#[trigger] lane16(mask, j),
{
    vstd::std_specs::bits::axiom_u16_trailing_zeros(mask);
}

/// The lowest set lane of a non-empty 32-lane mask is the one `trailing_zeros` names.
pub proof fn lemma_lowest_lane32(mask: u32)
    requires
        mask != 0,
    ensures
        mask.trailing_zeros() < 32,
        lane32(mask, mask.trailing_zeros()),
        forall|j: u32| j < mask.trailing_zeros() ==> !#[trigger] lane32(mask, j),
{
    vstd::std_specs::bits::axiom_u32_trailing_zeros(mask);
}

/// The lowest clear lane of a 16-lane mask that is not all ones is the lowest
/// set lane of its complement.
pub proof fn lemma_lowest_clear_lane16(mask: u16)
    requires
        mask != 0xffffu16,
    ensures
        (!mask).trailing_zeros() < 16,
        !lane16(mask, (!mask).trailing_zeros() as u16),
        forall|j: u16| j < (!mask).trailing_zeros() ==> #[trigger] lane16(mask, j),
{
    let inv = !mask;
    assert(inv != 0u16) by (bit_vector)
        requires
            inv == !mask,
            mask != 0xffffu16,
    ;
    lemma_lowest_lane16(inv);
    assert forall|j: u16| j < 16 implies lane16(inv, j) == !#[trigger] lane16(mask, j) by {
        assert(((!mask) >> j) & 1u16 == 1u16 <==> !((mask >> j) & 1u16 == 1u16)) by (bit_vector)
            requires
                j < 16,
        ;
    }
}

/// The lowest clear lane of a 32-lane mask that is not all ones is the lowest
/// set lane of its complement.
pub proof fn lemma_lowest_clear_lane32(mask: u32)
    requires
        mask != 0xffff_ffffu32,
    ensures
        (!mask).trailing_zeros() < 32,
        !lane32(mask, (!mask).trailing_zeros()),
        forall|j: u32| j < (!mask).trailing_zeros() ==> #[trigger] lane32(mask, j),
{
    let inv = !mask;
    assert(inv != 0u32) by (bit_vector)
        requires
            inv == !mask,
            mask != 0xffff_ffffu32,
    ;
    lemma_lowest_lane32(inv);
    assert forall|j: u32| j < 32 implies lane32(inv, j) == !#[trigger] lane32(mask, j) by {
        assert(((!mask) >> j) & 1u32 == 1u32 <==> !((mask >> j) & 1u32 == 1u32)) by (bit_vector)
            requires
                j < 32,
        ;
    }
}

/// An empty mask has no lane set; a full mask has every lane set.
pub proof fn lemma_extreme_masks16(mask: u16)
    ensures
        mask == 0 ==> forall|j: u16| j < 16 ==> !#[trigger] lane16(mask, j),
        mask == 0xffffu16 ==> forall|j: u16| j < 16 ==> #[trigger] lane16(mask, j),
{
    assert forall|j: u16| j < 16 implies (mask == 0 ==> !#[trigger] lane16(mask, j)) && (mask
        == 0xffffu16 ==> lane16(mask, j)) by {
        assert(mask == 0 ==> (mask >> j) & 1u16 == 0u16) by (bit_vector);
        assert(mask == 0xffffu16 && j < 16 ==> (mask >> j) & 1u16 == 1u16) by (bit_vector);
    }
}

/// An empty mask has no lane set; a full mask has every lane set.
pub proof fn lemma_extreme_masks32(mask: u32)
    ensures
        mask == 0 ==> forall|j: u32| j < 32 ==> !#[trigger] lane32(mask, j),
        mask == 0xffff_ffffu32 ==> forall|j: u32| j < 32 ==> #[trigger] lane32(mask, j),
{
    assert forall|j: u32| j < 32 implies (mask == 0 ==> !#[trigger] lane32(mask, j)) && (mask
        == 0xffff_ffffu32 ==> lane32(mask, j)) by {
        assert(mask == 0 ==> (mask >> j) & 1u32 == 0u32) by (bit_vector);
        assert(mask == 0xffff_ffffu32 && j < 32 ==> (mask >> j) & 1u32 == 1u32) by (bit_vector);
    }
}

} // verus!
