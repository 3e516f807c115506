//! Stacking of single-weight box-drawing characters.
//!
//! Each supported character stands for a 4-bit segment mask. Starting from the
//! least significant bit, the bits mean a segment pointing up, right, down and
//! left. Stacking two characters takes the union of their segments.
use vstd::prelude::*;

verus! {

/// The character whose glyph shows exactly the segments of mask `m`.
pub open spec fn mask_char(m: u32) -> char
    recommends
        m < 16,
{
    match m {
        0 => ' ',
        1 => '\u{2575}',
        2 => '\u{2576}',
        3 => '\u{2514}',
        4 => '\u{2577}',
        5 => '\u{2502}',
        6 => '\u{250c}',
        7 => '\u{251c}',
        8 => '\u{2574}',
        9 => '\u{2518}',
        10 => '\u{2500}',
        11 => '\u{2534}',
        12 => '\u{2510}',
        13 => '\u{2524}',
        14 => '\u{252c}',
        _ => '\u{253c}',
    }
}

/// Whether `c` is one of the sixteen line-drawing characters.
pub open spec fn is_line_char(c: char) -> bool {
    exists|m: u32| m < 16 && #[trigger] mask_char(m) == c
}

/// The segment mask of a line-drawing character.
pub open spec fn char_mask(c: char) -> u32
    recommends
        is_line_char(c),
{
    choose|m: u32| m < 16 && #[trigger] mask_char(m) == c
}

/// What stacking `a` on `b` yields: the character for the union of their
/// segments, or nothing when either one is not a line-drawing character.
pub open spec fn stacked(a: char, b: char) -> Option<char> {
    if is_line_char(a) && is_line_char(b) {
        Some(mask_char(char_mask(a) | char_mask(b)))
    } else {
        None
    }
}

/// Distinct masks give distinct characters.
pub proof fn lemma_mask_char_injective(i: u32, j: u32)
    requires
        i < 16,
        j < 16,
        mask_char(i) == mask_char(j),
    ensures
        i == j,
{
}

/// A mask below 16 is the mask of its own character.
pub proof fn lemma_mask_round_trip(m: u32)
    requires
        m < 16,
    ensures
        is_line_char(mask_char(m)),
        char_mask(mask_char(m)) == m,
{
    let c = mask_char(m);
    assert(m < 16 && mask_char(m) == c);
    let k = char_mask(c);
    lemma_mask_char_injective(k, m);
}

/// A line-drawing character is the character of its own mask.
pub proof fn lemma_char_round_trip(c: char)
    requires
        is_line_char(c),
    ensures
        char_mask(c) < 16,
        mask_char(char_mask(c)) == c,
{
}

/// Mask 0 is the blank space and mask 15 is the full cross.
pub proof fn lemma_mask_boundaries()
    ensures
        mask_char(0) == ' ',
        mask_char(15) == '\u{253c}',
        char_mask(' ') == 0,
        char_mask('\u{253c}') == 15,
{
    lemma_mask_round_trip(0);
    lemma_mask_round_trip(15);
}

/// Stacking is commutative: the order of the two characters does not matter.
pub proof fn lemma_stack_commutative(a: char, b: char)
    ensures
        stacked(a, b) == stacked(b, a),
{
    let (x, y) = (char_mask(a), char_mask(b));
    assert(x | y == y | x) by (bit_vector);
}

/// The blank space is the identity of stacking, on either side.
pub proof fn lemma_stack_blank_identity(a: char)
    requires
        is_line_char(a),
    ensures
        stacked(' ', a) == Some(a),
        stacked(a, ' ') == Some(a),
{
    lemma_mask_round_trip(0);
    lemma_char_round_trip(a);
    let x = char_mask(a);
    assert(0u32 | x == x && x | 0u32 == x) by (bit_vector);
}

/// Stacking a line-drawing character on itself gives it back.
pub proof fn lemma_stack_idempotent(a: char)
    requires
        is_line_char(a),
    ensures
        stacked(a, a) == Some(a),
{
    lemma_char_round_trip(a);
    let x = char_mask(a);
    assert(x | x == x) by (bit_vector);
}

/// A character that is not a line-drawing character makes stacking fail,
/// whichever side it stands on.
pub proof fn lemma_stack_unsupported(x: char, b: char)
    requires
        !is_line_char(x),
    ensures
        stacked(x, b) is None,
        stacked(b, x) is None,
{
}

/// Convert a segment mask to its line-drawing character.
///
/// A mask of 16 or more is ruled out by the contract; an unchecked caller that
/// passes one gets a panic, never a glyph.
pub fn bits_to_char(bits: u32) -> (r: char)
    requires
        bits < 16,
    ensures
        r == mask_char(bits),
{
    match bits {
        0 => ' ',
        1 => '\u{2575}',
        2 => '\u{2576}',
        3 => '\u{2514}',
        4 => '\u{2577}',
        5 => '\u{2502}',
        6 => '\u{250c}',
        7 => '\u{251c}',
        8 => '\u{2574}',
        9 => '\u{2518}',
        10 => '\u{2500}',
        11 => '\u{2534}',
        12 => '\u{2510}',
        13 => '\u{2524}',
        14 => '\u{252c}',
        15 => '\u{253c}',
        _ => vstd::pervasive::unreached(),
    }
}

/// Convert a line-drawing character to its segment mask, or `None` if the
/// character is not one of the sixteen.
pub fn char_to_bits(c: char) -> (r: Option<usize>)
    ensures
        r is Some <==> is_line_char(c),
        r matches Some(m) ==> m < 16 && m as u32 == char_mask(c) && mask_char(m as u32) == c,
{
    let mut m: u32 = 0;
    while m < 16
        invariant
            m <= 16,
            forall|k: u32| k < m ==> #[trigger] mask_char(k) != c,
        decreases 16 - m,
    {
        if bits_to_char(m) == c {
            proof {
                lemma_mask_round_trip(m);
            }
            return Some(m as usize);
        }
        m = m + 1;
    }
    None
}

/// Stack two line-drawing characters on top of each other: the result shows
/// the segments of both. `None` if either character is not supported.
pub fn stack(a: char, b: char) -> (r: Option<char>)
    ensures
        r == stacked(a, b),
{
    match (char_to_bits(a), char_to_bits(b)) {
        (Some(x), Some(y)) => {
            let (x, y) = (x as u32, y as u32);
            assert(x | y < 16) by (bit_vector)
                requires
                    x < 16,
                    y < 16,
            ;
            Some(bits_to_char(x | y))
        },
        _ => None,
    }
}

} // verus!
