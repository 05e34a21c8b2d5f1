//! The lazy, bidirectional, exact-length character sequence of a symbol: one
//! element per link, built compositionally from a link's own character and the
//! tail's own sequence.

use vstd::prelude::*;

verus! {

/// The capability set of a symbol's character sequence. `remaining` is the
/// model: the scalar values not yet yielded, in forward order. Once it is
/// empty, both ends keep signaling exhaustion for good.
pub trait SymbolChars: Sized {
    /// The scalar values not yet yielded, in forward order.
    spec fn remaining(&self) -> Seq<u32>;

    /// Yield the first remaining scalar value, or None once exhausted.
    fn next(&mut self) -> (r: Option<u32>)
        ensures
            old(self).remaining().len() == 0 ==> r is None
                && final(self).remaining() == old(self).remaining(),
            old(self).remaining().len() > 0 ==> r == Some(old(self).remaining()[0])
                && final(self).remaining() == old(self).remaining().drop_first(),
    ;

    /// Yield the last remaining scalar value, or None once exhausted.
    fn next_back(&mut self) -> (r: Option<u32>)
        ensures
            old(self).remaining().len() == 0 ==> r is None
                && final(self).remaining() == old(self).remaining(),
            old(self).remaining().len() > 0 ==> r == Some(old(self).remaining().last())
                && final(self).remaining() == old(self).remaining().drop_last(),
    ;

    /// Exact remaining count, saturated at usize::MAX.
    fn len(&self) -> (n: usize)
        ensures
            self.remaining().len() <= usize::MAX ==> n == self.remaining().len(),
            self.remaining().len() > usize::MAX ==> n == usize::MAX,
    ;

    /// Lower and upper bound of the remaining count: the lower bound saturated
    /// at usize::MAX, the upper bound absent where the count would overflow.
    fn size_hint(&self) -> (r: (usize, Option<usize>))
        ensures
            self.remaining().len() <= usize::MAX ==> r.0 == self.remaining().len()
                && r.1 == Some(self.remaining().len() as usize),
            self.remaining().len() > usize::MAX ==> r.0 == usize::MAX && r.1 is None,
    ;
}

/// The character sequence of the terminal marker: it yields nothing.
#[derive(Clone, Copy, PartialEq, Eq, Hash)]
pub struct Empty;

/// Iterator over the characters of a given symbol: the link's own character
/// first (tracked by `used_c`), then whatever the tail's iterator yields.
#[derive(Clone, Copy, PartialEq, Eq, Hash)]
#[must_use]
pub struct Chars<const C: u32, Tail> {
    used_c: bool,
    tail: Tail,
}

impl SymbolChars for Empty {
    open spec fn remaining(&self) -> Seq<u32> {
        Seq::empty()
    }

    fn next(&mut self) -> (r: Option<u32>) {
        None
    }

    fn next_back(&mut self) -> (r: Option<u32>) {
        None
    }

    fn len(&self) -> (n: usize) {
        0
    }

    fn size_hint(&self) -> (r: (usize, Option<usize>)) {
        (0, Some(0))
    }
}

impl<const C: u32, Tail: SymbolChars> Chars<C, Tail> {
    /// A fresh sequence over `C` followed by whatever `tail` still holds.
    pub(crate) fn fresh(tail: Tail) -> (it: Self)
        ensures
            it.remaining() == seq![C] + tail.remaining(),
    {
        Chars { used_c: false, tail }
    }
}

impl<const C: u32, Tail: SymbolChars> SymbolChars for Chars<C, Tail> {
    closed spec fn remaining(&self) -> Seq<u32> {
        if self.used_c {
            self.tail.remaining()
        } else {
            seq![C] + self.tail.remaining()
        }
    }

    fn next(&mut self) -> (r: Option<u32>) {
        if self.used_c {
            self.tail.next()
        } else {
            self.used_c = true;
            Some(C)
        }
    }

    fn next_back(&mut self) -> (r: Option<u32>) {
        let ghost pre = self.remaining();
        let back = self.tail.next_back();
        match back {
            Some(u) => {
                proof {
                    if !self.used_c {
                        assert(pre.last() == u);
                        assert(pre.drop_last() =~= seq![C] + old(self).tail.remaining().drop_last());
                    }
                }
                Some(u)
            },
            None => {
                if self.used_c {
                    None
                } else {
                    self.used_c = true;
                    proof {
                        assert(pre =~= seq![C]);
                        assert(pre.drop_last() =~= self.remaining());
                    }
                    Some(C)
                }
            },
        }
    }

    fn len(&self) -> (n: usize) {
        let len = self.tail.len();
        if self.used_c {
            len
        } else {
            if len < usize::MAX {
                len + 1
            } else {
                usize::MAX
            }
        }
    }

    fn size_hint(&self) -> (r: (usize, Option<usize>)) {
        let (lower, upper) = self.tail.size_hint();
        if self.used_c {
            return (lower, upper);
        }
        let low = if lower < usize::MAX {
            lower + 1
        } else {
            usize::MAX
        };
        let up = match upper {
            Some(u) => {
                if u < usize::MAX {
                    Some(u + 1)
                } else {
                    None
                }
            },
            None => None,
        };
        (low, up)
    }
}

/// Draining a character sequence forward yields exactly what remained, in
/// order.
pub fn collect_code_points<I: SymbolChars>(it: I) -> (v: Vec<u32>)
    ensures
        v@ == it.remaining(),
{
    let ghost all = it.remaining();
    let mut cur = it;
    let mut v: Vec<u32> = Vec::new();
    loop
        invariant
            all == v@ + cur.remaining(),
        ensures
            all == v@ + cur.remaining(),
            cur.remaining().len() == 0,
        decreases cur.remaining().len(),
    {
        match cur.next() {
            Some(u) => {
                v.push(u);
                proof {
                    assert(all =~= v@ + cur.remaining());
                }
            },
            None => {
                break;
            },
        }
    }
    proof {
        assert(v@ =~= all);
    }
    v
}

/// Draining a character sequence backward yields the exact mirror of what
/// remained.
pub fn collect_code_points_rev<I: SymbolChars>(it: I) -> (v: Vec<u32>)
    ensures
        v@ == it.remaining().reverse(),
{
    let ghost all = it.remaining();
    let mut cur = it;
    let mut v: Vec<u32> = Vec::new();
    loop
        invariant
            all == cur.remaining() + v@.reverse(),
        ensures
            all == cur.remaining() + v@.reverse(),
            cur.remaining().len() == 0,
        decreases cur.remaining().len(),
    {
        match cur.next_back() {
            Some(u) => {
                v.push(u);
                proof {
                    assert(all =~= cur.remaining() + v@.reverse());
                }
            },
            None => {
                break;
            },
        }
    }
    proof {
        assert(v@ =~= all.reverse());
    }
    v
}

} // verus!
