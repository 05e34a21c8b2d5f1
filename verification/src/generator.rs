//! The generator: expands a literal string into the nested chain type
//! expression denoting it. The expression is built inside-out, walking the
//! characters backward from the terminal marker, so links nest in forward
//! reading order. Every named item is qualified by a caller-supplied root
//! path, so the expression resolves whether the defining crate is the
//! caller's own root or an imported dependency.

use vstd::prelude::*;

verus! {

use vstd::string::StrSliceExecFns;
use vstd::string::StringExecFns;
use crate::text::code_points_of;

/// One decimal digit as a character.
pub open spec fn spec_digit_char(d: nat) -> char {
    if d == 0 {
        '0'
    } else if d == 1 {
        '1'
    } else if d == 2 {
        '2'
    } else if d == 3 {
        '3'
    } else if d == 4 {
        '4'
    } else if d == 5 {
        '5'
    } else if d == 6 {
        '6'
    } else if d == 7 {
        '7'
    } else if d == 8 {
        '8'
    } else {
        '9'
    }
}

/// The decimal digits of `u`, most significant first, no leading zeros.
pub open spec fn spec_decimal(u: nat) -> Seq<char>
    decreases u,
{
    if u < 10 {
        seq![spec_digit_char(u)]
    } else {
        spec_decimal(u / 10) + seq![spec_digit_char(u % 10)]
    }
}

/// The nested type expression for the string with the given scalar values:
/// the terminal marker innermost, one link per character wrapped around it in
/// forward reading order, every name qualified by `root`.
pub open spec fn spec_type_expr(s: Seq<u32>, root: Seq<char>) -> Seq<char>
    decreases s.len(),
{
    if s.len() == 0 {
        root + "::Nil"@
    } else {
        root + "::Cons<"@ + spec_decimal(s[0] as nat) + ", "@ + spec_type_expr(
            s.drop_first(),
            root,
        ) + ">"@
    }
}

/// The text of one decimal digit.
fn digit_str(d: u32) -> (r: &'static str)
    requires
        d < 10,
    ensures
        r@ == seq![spec_digit_char(d as nat)],
{
    let r: &'static str = match d {
        0 => "0",
        1 => "1",
        2 => "2",
        3 => "3",
        4 => "4",
        5 => "5",
        6 => "6",
        7 => "7",
        8 => "8",
        _ => "9",
    };
    proof {
        reveal_strlit("0");
        reveal_strlit("1");
        reveal_strlit("2");
        reveal_strlit("3");
        reveal_strlit("4");
        reveal_strlit("5");
        reveal_strlit("6");
        reveal_strlit("7");
        reveal_strlit("8");
        reveal_strlit("9");
        assert(r@ =~= seq![spec_digit_char(d as nat)]);
    }
    r
}

/// Appends the decimal form of `u`.
fn push_decimal(s: &mut String, u: u32)
    ensures
        final(s)@ == old(s)@ + spec_decimal(u as nat),
    decreases u,
{
    if u >= 10 {
        push_decimal(s, u / 10);
    }
    s.append(digit_str(u % 10));
    proof {
        assert(s@ =~= old(s)@ + spec_decimal(u as nat));
    }
}

/// Expands a literal string into the nested chain type expression that
/// denotes it, each name qualified by `root` (the path under which the
/// defining crate is visible at the invocation site, such as a crate's own
/// root or an imported dependency's name).
pub fn symbol_type_expr(lit: &str, root: &str) -> (r: String)
    ensures
        r@ == spec_type_expr(code_points_of(lit@), root@),
{
    let ghost cps = code_points_of(lit@);
    let n = lit.unicode_len();
    let mut acc = String::from_str(root);
    acc.append("::Nil");
    proof {
        assert(cps.skip(n as int) =~= Seq::<u32>::empty());
    }
    let mut i = n;
    while i > 0
        invariant
            i <= n,
            n == lit@.len(),
            cps == code_points_of(lit@),
            acc@ == spec_type_expr(cps.skip(i as int), root@),
        decreases i,
    {
        i = i - 1;
        let c = lit.get_char(i);
        let mut t = String::from_str(root);
        t.append("::Cons<");
        push_decimal(&mut t, c as u32);
        t.append(", ");
        t.append(acc.as_str());
        t.append(">");
        acc = t;
        proof {
            assert(cps.skip(i as int)[0] == c as u32);
            assert(cps.skip(i as int).drop_first() =~= cps.skip(i as int + 1));
            assert(acc@ =~= spec_type_expr(cps.skip(i as int), root@));
        }
    }
    proof {
        assert(cps.skip(0) =~= cps);
    }
    acc
}

} // verus!
