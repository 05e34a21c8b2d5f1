//! The chain: the recursive compile-time representation of a string, and the
//! symbol contract both of its variants satisfy. A link fixes one Unicode
//! scalar value as a const generic, its tail is the rest of the string, and
//! the terminal marker ends every chain, so a fully built chain stores
//! nothing at runtime.

use vstd::prelude::*;

verus! {

use core::hash::Hash;
use vstd::string::StringExecFns;
use vstd::utf8::char_u32_cast;
use vstd::utf8::is_scalar;
use crate::chars::Chars;
use crate::chars::Empty;
use crate::chars::SymbolChars;
use crate::sealed::Sealed;
use crate::text::all_scalars;
use crate::text::chars_of;
use crate::text::code_points_of;
use crate::text::scalar_utf8_len;
use crate::text::spec_debug_text;
use crate::text::spec_utf8_len;

/// The end of the symbol: the type denoting the empty string.
#[derive(Debug, Clone, Copy, PartialEq, Eq, PartialOrd, Ord, Hash)]
pub struct Nil;

/// A single character of the symbol, fixed at compile time as the Unicode
/// scalar value `C`, followed by the rest of the symbol.
#[derive(Clone, Copy, PartialEq, Eq, PartialOrd, Ord, Hash)]
pub struct Cons<const C: u32, Tail>(Tail);

/// The capability bounds every symbol carries: comparison, ordering, hashing,
/// copying and a default value.
pub trait SymbolBounds: Eq + Ord + Copy + Hash + Default {

}

impl<T: Eq + Ord + Copy + Hash + Default> SymbolBounds for T {

}

/// A symbol, which is a type-level string: the contract both chain variants
/// satisfy and nothing else can (see the seal).
pub trait Symbol: SymbolBounds + Sealed {
    /// The lazy character-sequence type of this symbol.
    type Chars: SymbolChars;

    /// The sequence of Unicode scalar values this symbol denotes.
    spec fn spec_code_points() -> Seq<u32>;

    /// The canonical value of this symbol type.
    spec fn spec_canon() -> Self;

    /// Every per-link value is a valid Unicode scalar.
    spec fn spec_wf() -> bool;

    /// A symbol type has exactly one possible value: the canonical one.
    proof fn lemma_canonical(s: &Self)
        ensures
            *s == Self::spec_canon(),
    ;

    /// Well-formedness says exactly that every denoted value is a scalar.
    proof fn lemma_wf()
        ensures
            Self::spec_wf() <==> all_scalars(Self::spec_code_points()),
    ;

    /// Get an instance of the symbol.
    fn new() -> (s: Self)
        ensures
            s == Self::spec_canon(),
    ;

    /// Whether every per-link value is a valid Unicode scalar; true for every
    /// symbol built from the characters of an actual string.
    fn wf_check() -> (b: bool)
        ensures
            b == Self::spec_wf(),
    ;

    /// Get an iterator over the characters of the symbol.
    fn chars() -> (it: Self::Chars)
        ensures
            it.remaining() == Self::spec_code_points(),
    ;

    /// The denoted scalar values, as a vector.
    fn code_points() -> (v: Vec<u32>)
        ensures
            v@ == Self::spec_code_points(),
    ;

    /// The UTF-8 byte length of the denoted string.
    fn byte_len() -> (n: usize)
        requires
            spec_utf8_len(Self::spec_code_points()) <= usize::MAX,
        ensures
            n == spec_utf8_len(Self::spec_code_points()),
    ;

    /// Formatted output: the characters concatenated in order, no delimiters;
    /// the terminal marker renders nothing.
    fn display(&self) -> (r: String)
        requires
            Self::spec_wf(),
        ensures
            r@ == chars_of(Self::spec_code_points()),
            code_points_of(r@) == Self::spec_code_points(),
    ;

    /// Structural output: a named empty marker for the terminal case, else a
    /// named node exposing the character and the nested tail.
    fn debug_text(&self) -> (r: String)
        requires
            Self::spec_wf(),
        ensures
            r@ == spec_debug_text(Self::spec_code_points()),
    ;
}

impl Symbol for Nil {
    type Chars = Empty;

    open spec fn spec_code_points() -> Seq<u32> {
        Seq::empty()
    }

    open spec fn spec_canon() -> Self {
        Nil
    }

    open spec fn spec_wf() -> bool {
        true
    }

    proof fn lemma_canonical(s: &Self) {
    }

    proof fn lemma_wf() {
    }

    fn new() -> (s: Self) {
        Nil
    }

    fn wf_check() -> (b: bool) {
        true
    }

    fn chars() -> (it: Self::Chars) {
        Empty
    }

    fn code_points() -> (v: Vec<u32>) {
        Vec::new()
    }

    fn byte_len() -> (n: usize) {
        0
    }

    fn display(&self) -> (r: String) {
        String::new()
    }

    fn debug_text(&self) -> (r: String) {
        let r = String::from_str("Nil");
        r
    }
}

impl<const C: u32, Tail: Symbol> Symbol for Cons<C, Tail> {
    type Chars = Chars<C, Tail::Chars>;

    open spec fn spec_code_points() -> Seq<u32> {
        seq![C] + Tail::spec_code_points()
    }

    closed spec fn spec_canon() -> Self {
        Cons(Tail::spec_canon())
    }

    open spec fn spec_wf() -> bool {
        is_scalar(C) && Tail::spec_wf()
    }

    proof fn lemma_canonical(s: &Self) {
        Tail::lemma_canonical(&s.0);
    }

    proof fn lemma_wf() {
        Tail::lemma_wf();
        let s = Self::spec_code_points();
        let t = Tail::spec_code_points();
        assert(t =~= s.drop_first());
        if is_scalar(C) && all_scalars(t) {
            assert forall|i: int| 0 <= i < s.len() implies is_scalar(#[trigger] s[i]) by {
                if i > 0 {
                    assert(s[i] == t[i - 1]);
                }
            }
        }
        if all_scalars(s) {
            assert(is_scalar(C)) by {
                assert(s[0] == C);
            }
            assert forall|i: int| 0 <= i < t.len() implies is_scalar(#[trigger] t[i]) by {
                assert(t[i] == s[i + 1]);
            }
        }
    }

    fn new() -> (s: Self) {
        Cons(Tail::new())
    }

    fn wf_check() -> (b: bool) {
        char::from_u32(C).is_some() && Tail::wf_check()
    }

    fn chars() -> (it: Self::Chars) {
        Chars::fresh(Tail::chars())
    }

    fn code_points() -> (v: Vec<u32>) {
        let mut v = Tail::code_points();
        v.insert(0, C);
        proof {
            assert(v@ =~= Self::spec_code_points());
        }
        v
    }

    fn byte_len() -> (n: usize) {
        proof {
            assert(Tail::spec_code_points() =~= Self::spec_code_points().drop_first());
            crate::text::lemma_utf8_len_bounds(Tail::spec_code_points());
        }
        let tail_len = Tail::byte_len();
        scalar_utf8_len(C) + tail_len
    }

    fn display(&self) -> (r: String) {
        let c = char::from_u32(C).unwrap();
        let mut r = String::new();
        r.push(c);
        let t = self.0.display();
        r.append(t.as_str());
        proof {
            char_u32_cast(c, C);
            assert(Tail::spec_code_points() =~= Self::spec_code_points().drop_first());
            assert(r@ =~= chars_of(Self::spec_code_points()));
            assert(code_points_of(r@) =~= Self::spec_code_points());
        }
        r
    }

    fn debug_text(&self) -> (r: String) {
        let c = char::from_u32(C).unwrap();
        let mut r = String::from_str("Cons('");
        r.push(c);
        r.append("', ");
        let t = self.0.debug_text();
        r.append(t.as_str());
        r.append(")");
        proof {
            char_u32_cast(c, C);
            assert(Tail::spec_code_points() =~= Self::spec_code_points().drop_first());
            assert(r@ =~= spec_debug_text(Self::spec_code_points()));
        }
        r
    }
}

impl Default for Nil {
    fn default() -> (s: Self)
        ensures
            s == <Nil as Symbol>::spec_canon(),
    {
        Nil::new()
    }
}

impl<const C: u32, Tail: Symbol> Default for Cons<C, Tail> {
    fn default() -> (s: Self)
        ensures
            s == <Cons<C, Tail> as Symbol>::spec_canon(),
    {
        Cons::new()
    }
}

impl Nil {
    /// Get an instance of the terminal marker.
    pub fn new() -> (s: Self)
        ensures
            s == <Nil as Symbol>::spec_canon(),
    {
        <Self as Symbol>::new()
    }
}

impl<const C: u32, Tail: Symbol> Cons<C, Tail> {
    /// Get an instance of this link.
    pub fn new() -> (s: Self)
        ensures
            s == <Cons<C, Tail> as Symbol>::spec_canon(),
    {
        <Self as Symbol>::new()
    }
}

/// Two values of one symbol type are always equal: the type has exactly one
/// value, so independent constructions are mutually substitutable.
pub proof fn lemma_same_type_same_value<S: Symbol>(a: &S, b: &S)
    ensures
        *a == *b,
{
    S::lemma_canonical(a);
    S::lemma_canonical(b);
}

} // verus!
