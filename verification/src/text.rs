//! Scalar values, their UTF-8 byte widths, and the text forms shared by the
//! chain's formatted and structural output.

use vstd::prelude::*;

verus! {

use vstd::utf8::is_scalar;

/// The Unicode scalar values of a character sequence.
pub open spec fn code_points_of(s: Seq<char>) -> Seq<u32> {
    s.map_values(|c: char| c as u32)
}

/// The character sequence with the given scalar values.
pub open spec fn chars_of(s: Seq<u32>) -> Seq<char> {
    s.map_values(|u: u32| u as char)
}

/// Every element is a valid Unicode scalar value.
pub open spec fn all_scalars(s: Seq<u32>) -> bool {
    forall|i: int| 0 <= i < s.len() ==> is_scalar(#[trigger] s[i])
}

/// Number of bytes in the UTF-8 encoding of one scalar value: 1, 2, 3 or 4,
/// by the scalar's range.
pub open spec fn spec_scalar_utf8_len(u: u32) -> int {
    if u <= 0x7F {
        1
    } else if u <= 0x7FF {
        2
    } else if u <= 0xFFFF {
        3
    } else {
        4
    }
}

/// Total UTF-8 byte length of a sequence of scalar values.
pub open spec fn spec_utf8_len(s: Seq<u32>) -> int
    decreases s.len(),
{
    if s.len() == 0 {
        0
    } else {
        spec_scalar_utf8_len(s[0]) + spec_utf8_len(s.drop_first())
    }
}

/// Every scalar value takes at least one and at most four bytes.
pub proof fn lemma_utf8_len_bounds(s: Seq<u32>)
    ensures
        s.len() <= spec_utf8_len(s) <= 4 * s.len(),
    decreases s.len(),
{
    if s.len() > 0 {
        lemma_utf8_len_bounds(s.drop_first());
    }
}

/// The byte length stated by range is exactly the length of the actual UTF-8
/// encoding of the denoted characters.
pub proof fn lemma_utf8_len_matches_encoding(s: Seq<u32>)
    requires
        all_scalars(s),
    ensures
        spec_utf8_len(s) == vstd::utf8::encode_utf8(chars_of(s)).len(),
    decreases s.len(),
{
    if s.len() > 0 {
        assert(is_scalar(s[0]));
        assert((s[0] as char) as u32 == s[0]);
        assert(chars_of(s)[0] == s[0] as char);
        assert(chars_of(s).drop_first() =~= chars_of(s.drop_first()));
        assert(all_scalars(s.drop_first())) by {
            assert(forall|i: int|
                0 <= i < s.drop_first().len() ==> #[trigger] s.drop_first()[i] == s[i + 1]);
        }
        lemma_utf8_len_matches_encoding(s.drop_first());
    }
}

/// The structural (debug) text of a chain with the given scalar values: the
/// terminal marker renders as `Nil`, a link as `Cons('<char>', <tail>)`.
pub open spec fn spec_debug_text(s: Seq<u32>) -> Seq<char>
    decreases s.len(),
{
    if s.len() == 0 {
        "Nil"@
    } else {
        "Cons('"@ + seq![s[0] as char] + "', "@ + spec_debug_text(s.drop_first()) + ")"@
    }
}

/// Relies on char::from_u32: returns the character with the given scalar
/// value, and None exactly when the value is a surrogate or above char::MAX.
pub assume_specification[ char::from_u32 ](u: u32) -> (r: Option<char>)
    ensures
        r is Some <==> is_scalar(u),
        r matches Some(c) ==> c as u32 == u,
;

/// Relies on String::push: appends exactly the given character.
pub assume_specification[ String::push ](s: &mut String, c: char)
    ensures
        final(s)@ == old(s)@.push(c),
;

/// UTF-8 byte width of one scalar value.
pub(crate) fn scalar_utf8_len(u: u32) -> (n: usize)
    ensures
        n == spec_scalar_utf8_len(u),
{
    match u {
        0..=0x7F => 1,
        0x80..=0x7FF => 2,
        0x800..=0xFFFF => 3,
        _ => 4,
    }
}

/// UTF-8 byte width of one character.
pub fn char_utf8_len(c: char) -> (n: usize)
    ensures
        n == spec_scalar_utf8_len(c as u32),
{
    scalar_utf8_len(c as u32)
}

} // verus!
