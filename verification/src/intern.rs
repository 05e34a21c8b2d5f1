//! The intern store: an explicit registry mapping a symbol's identity to a
//! heap-backed text view equal to its formatted output, created on first
//! dereference and removed only by an explicit reclaim. A symbol's identity
//! is its denoted scalar-value sequence: two chains denote the same string
//! exactly when they are the same type, so keying by content is keying by
//! type. Callers wanting the shared, concurrently used cache of the original
//! design wrap one store in a fair lock; every operation here is a short,
//! bounded computation suited to such a critical section.

use vstd::prelude::*;

verus! {

use crate::chain::Symbol;
use crate::text::chars_of;
use crate::text::code_points_of;

/// One cache entry: the interned scalar-value key and the rendered text.
struct Entry {
    key: Vec<u32>,
    text: String,
}

/// The registry. Its view is the map from interned scalar-value sequences to
/// their rendered texts.
pub struct InternStore {
    entries: Vec<Entry>,
}

/// The map denoted by a sequence of entries, later entries winning (the store
/// keeps keys unique, so no entry ever shadows another).
spec fn map_of(es: Seq<Entry>) -> Map<Seq<u32>, Seq<char>>
    decreases es.len(),
{
    if es.len() == 0 {
        Map::empty()
    } else {
        map_of(es.drop_last()).insert(es.last().key@, es.last().text@)
    }
}

/// Some entry holds the key `k`.
spec fn has_key(es: Seq<Entry>, k: Seq<u32>) -> bool {
    exists|i: int| 0 <= i < es.len() && (#[trigger] es[i]).key@ == k
}

/// No two entries share a key.
spec fn unique_keys(es: Seq<Entry>) -> bool {
    forall|i: int, j: int|
        0 <= i < j < es.len() ==> (#[trigger] es[i]).key@ != (#[trigger] es[j]).key@
}

/// Every entry's text renders exactly its key.
spec fn texts_match(es: Seq<Entry>) -> bool {
    forall|i: int|
        0 <= i < es.len() ==> (#[trigger] es[i]).text@ == chars_of(es[i].key@)
            && code_points_of(es[i].text@) == es[i].key@
}

proof fn lemma_map_of_contains(es: Seq<Entry>)
    ensures
        forall|k: Seq<u32>| #[trigger] map_of(es).contains_key(k) <==> has_key(es, k),
    decreases es.len(),
{
    if es.len() > 0 {
        lemma_map_of_contains(es.drop_last());
        assert forall|k: Seq<u32>| #[trigger] map_of(es).contains_key(k) <==> has_key(es, k) by {
            if map_of(es).contains_key(k) {
                if k == es.last().key@ {
                    assert(0 <= es.len() - 1 < es.len() && es[es.len() - 1].key@ == k);
                } else {
                    assert(map_of(es.drop_last()).contains_key(k));
                    assert(has_key(es.drop_last(), k));
                    let i = choose|i: int|
                        0 <= i < es.drop_last().len() && (#[trigger] es.drop_last()[i]).key@ == k;
                    assert(es[i].key@ == k);
                }
                assert(has_key(es, k));
            }
            if has_key(es, k) {
                let i = choose|i: int| 0 <= i < es.len() && (#[trigger] es[i]).key@ == k;
                if i < es.len() - 1 {
                    assert(es.drop_last()[i].key@ == k);
                    assert(has_key(es.drop_last(), k));
                    assert(map_of(es.drop_last()).contains_key(k));
                }
                assert(map_of(es).contains_key(k));
            }
        }
    }
}

proof fn lemma_map_of_value(es: Seq<Entry>, i: int)
    requires
        unique_keys(es),
        0 <= i < es.len(),
    ensures
        map_of(es).contains_key(es[i].key@),
        map_of(es)[es[i].key@] == es[i].text@,
    decreases es.len(),
{
    lemma_map_of_contains(es);
    if i < es.len() - 1 {
        assert(es.drop_last()[i] == es[i]);
        lemma_map_of_value(es.drop_last(), i);
        assert(es[i].key@ != es.last().key@);
    }
}

proof fn lemma_map_of_len(es: Seq<Entry>)
    requires
        unique_keys(es),
    ensures
        map_of(es).dom().finite(),
        map_of(es).len() == es.len(),
    decreases es.len(),
{
    if es.len() > 0 {
        lemma_map_of_len(es.drop_last());
        lemma_map_of_contains(es.drop_last());
        assert(!has_key(es.drop_last(), es.last().key@)) by {
            if has_key(es.drop_last(), es.last().key@) {
                let i = choose|i: int|
                    0 <= i < es.drop_last().len() && (#[trigger] es.drop_last()[i]).key@
                        == es.last().key@;
                assert(es[i].key@ == es[es.len() - 1].key@);
            }
        }
    }
}

proof fn lemma_map_of_push(es: Seq<Entry>, e: Entry)
    ensures
        map_of(es.push(e)) == map_of(es).insert(e.key@, e.text@),
{
    assert(es.push(e).drop_last() =~= es);
    assert(es.push(e).last() == e);
}

proof fn lemma_map_of_remove(es: Seq<Entry>, i: int)
    requires
        unique_keys(es),
        0 <= i < es.len(),
    ensures
        map_of(es.remove(i)) == map_of(es).remove(es[i].key@),
    decreases es.len(),
{
    lemma_map_of_contains(es);
    lemma_map_of_contains(es.remove(i));
    if i == es.len() - 1 {
        assert(es.remove(i) =~= es.drop_last());
        lemma_map_of_contains(es.drop_last());
        assert(!has_key(es.drop_last(), es.last().key@)) by {
            if has_key(es.drop_last(), es.last().key@) {
                let j = choose|j: int|
                    0 <= j < es.drop_last().len() && (#[trigger] es.drop_last()[j]).key@
                        == es.last().key@;
                assert(es[j].key@ == es[es.len() - 1].key@);
            }
        }
        assert(map_of(es.drop_last()) =~= map_of(es).remove(es[i].key@));
    } else {
        let short = es.drop_last();
        let last = es.last();
        assert(unique_keys(short)) by {
            assert(forall|a: int, b: int|
                0 <= a < b < short.len() ==> (#[trigger] short[a]).key@ != (#[trigger] short[b]).key@)
                by {
                assert(forall|a: int| 0 <= a < short.len() ==> short[a] == es[a]);
            }
        }
        assert(short[i] == es[i]);
        lemma_map_of_remove(short, i);
        assert(es.remove(i).drop_last() =~= short.remove(i));
        assert(es.remove(i).last() == last);
        assert(es[i].key@ != last.key@);
        assert(map_of(short).remove(es[i].key@).insert(last.key@, last.text@) =~= map_of(
            short,
        ).insert(last.key@, last.text@).remove(es[i].key@));
    }
}

impl InternStore {
    #[verifier::type_invariant]
    spec fn inv(&self) -> bool {
        unique_keys(self.entries@) && texts_match(self.entries@)
    }

    /// An empty registry.
    pub fn new() -> (s: Self)
        ensures
            s@ == Map::<Seq<u32>, Seq<char>>::empty(),
    {
        InternStore { entries: Vec::new() }
    }

    /// Number of cache entries.
    pub fn len(&self) -> (n: usize)
        ensures
            n == self@.len(),
    {
        proof {
            use_type_invariant(self);
            lemma_map_of_len(self.entries@);
        }
        self.entries.len()
    }

    /// Index of the entry holding `key`, if any.
    fn find(&self, key: &Vec<u32>) -> (r: Option<usize>)
        ensures
            match r {
                Some(i) => 0 <= i < self.entries@.len() && self.entries@[i as int].key@ == key@,
                None => !has_key(self.entries@, key@),
            },
    {
        let mut i: usize = 0;
        while i < self.entries.len()
            invariant
                i <= self.entries@.len(),
                forall|j: int| 0 <= j < i ==> (#[trigger] self.entries@[j]).key@ != key@,
            decreases self.entries@.len() - i,
        {
            if keys_equal(&self.entries[i].key, key) {
                return Some(i);
            }
            i = i + 1;
        }
        None
    }

    /// Get-or-create: returns the stored text view for the symbol's type
    /// identity, rendering and inserting it first if this identity was never
    /// seen (or was reclaimed); at most one entry ever exists per identity.
    pub fn deref<S: Symbol>(&mut self, sym: &S) -> (r: String)
        requires
            S::spec_wf(),
        ensures
            r@ == chars_of(S::spec_code_points()),
            code_points_of(r@) == S::spec_code_points(),
            final(self)@ == old(self)@.insert(S::spec_code_points(), r@),
            old(self)@.contains_key(S::spec_code_points()) ==> final(self)@ == old(self)@,
            final(self)@.len() == if old(self)@.contains_key(S::spec_code_points()) {
                old(self)@.len()
            } else {
                old(self)@.len() + 1
            },
    {
        proof {
            use_type_invariant(&*self);
            lemma_map_of_contains(self.entries@);
            lemma_map_of_len(self.entries@);
        }
        let key = S::code_points();
        match self.find(&key) {
            Some(i) => {
                let r = self.entries[i].text.clone();
                proof {
                    lemma_map_of_value(self.entries@, i as int);
                    assert(old(self)@.insert(S::spec_code_points(), r@) =~= old(self)@);
                }
                r
            },
            None => {
                let text = sym.display();
                let r = text.clone();
                let ghost pre = self.entries@;
                let e = Entry { key, text };
                let ghost ge = e;
                let mut es: Vec<Entry> = Vec::new();
                core::mem::swap(&mut es, &mut self.entries);
                es.push(e);
                proof {
                    assert(unique_keys(pre.push(ge))) by {
                        assert(forall|a: int| 0 <= a < pre.len() ==> pre.push(ge)[a] == pre[a]);
                    }
                    assert(texts_match(pre.push(ge))) by {
                        assert(forall|a: int| 0 <= a < pre.len() ==> pre.push(ge)[a] == pre[a]);
                    }
                    lemma_map_of_push(pre, ge);
                    lemma_map_of_len(pre.push(ge));
                }
                self.entries = es;
                r
            },
        }
    }

    /// Checked read: the stored view for the symbol type's identity, without
    /// rendering or inserting anything. Reading after a reclaim is a checked
    /// miss here (None), never a stale view.
    pub fn lookup<S: Symbol>(&self) -> (r: Option<&String>)
        ensures
            match r {
                Some(t) => self@.contains_key(S::spec_code_points()) && t@ == self@[
                    S::spec_code_points()
                ] && t@ == chars_of(S::spec_code_points()),
                None => !self@.contains_key(S::spec_code_points()),
            },
    {
        proof {
            use_type_invariant(self);
            lemma_map_of_contains(self.entries@);
        }
        let key = S::code_points();
        match self.find(&key) {
            Some(i) => {
                proof {
                    lemma_map_of_value(self.entries@, i as int);
                }
                Some(&self.entries[i].text)
            },
            None => None,
        }
    }

    /// Reclaim one: removes the entry for the symbol type's identity and
    /// frees its backing text; removing an absent entry is a no-op. Every
    /// other entry is left untouched.
    pub fn free<S: Symbol>(&mut self)
        ensures
            final(self)@ == old(self)@.remove(S::spec_code_points()),
            !old(self)@.contains_key(S::spec_code_points()) ==> final(self)@ == old(self)@,
            final(self)@.len() == if old(self)@.contains_key(S::spec_code_points()) {
                (old(self)@.len() - 1) as nat
            } else {
                old(self)@.len()
            },
    {
        proof {
            use_type_invariant(&*self);
            lemma_map_of_contains(self.entries@);
            lemma_map_of_len(self.entries@);
        }
        let key = S::code_points();
        match self.find(&key) {
            Some(i) => {
                let ghost pre = self.entries@;
                let mut es: Vec<Entry> = Vec::new();
                core::mem::swap(&mut es, &mut self.entries);
                es.remove(i);
                proof {
                    assert(unique_keys(pre.remove(i as int)) && texts_match(pre.remove(i as int)))
                        by {
                        assert(forall|a: int|
                            0 <= a < pre.remove(i as int).len() ==> pre.remove(i as int)[a] == if a
                                < i {
                                pre[a]
                            } else {
                                pre[a + 1]
                            });
                    }
                    lemma_map_of_remove(pre, i as int);
                    lemma_map_of_len(pre.remove(i as int));
                }
                self.entries = es;
            },
            None => {
                proof {
                    assert(old(self)@.remove(S::spec_code_points()) =~= old(self)@);
                }
            },
        }
    }

    /// Reclaim one by instance: reclaims based on the value's own type.
    pub fn free_ref<S: Symbol>(&mut self, sym: &S)
        ensures
            final(self)@ == old(self)@.remove(S::spec_code_points()),
            !old(self)@.contains_key(S::spec_code_points()) ==> final(self)@ == old(self)@,
            final(self)@.len() == if old(self)@.contains_key(S::spec_code_points()) {
                (old(self)@.len() - 1) as nat
            } else {
                old(self)@.len()
            },
    {
        self.free::<S>();
    }

    /// Reclaim all: drains the whole cache, freeing every backing text; a
    /// safe no-op when the cache is already empty.
    pub fn free_all(&mut self)
        ensures
            final(self)@ == Map::<Seq<u32>, Seq<char>>::empty(),
            final(self)@.len() == 0,
    {
        let mut es: Vec<Entry> = Vec::new();
        core::mem::swap(&mut es, &mut self.entries);
    }
}

impl View for InternStore {
    type V = Map<Seq<u32>, Seq<char>>;

    closed spec fn view(&self) -> Map<Seq<u32>, Seq<char>> {
        map_of(self.entries@)
    }
}

/// Element-wise equality of two scalar-value vectors.
fn keys_equal(a: &Vec<u32>, b: &Vec<u32>) -> (r: bool)
    ensures
        r == (a@ == b@),
{
    if a.len() != b.len() {
        return false;
    }
    let mut i: usize = 0;
    while i < a.len()
        invariant
            i <= a@.len(),
            a@.len() == b@.len(),
            forall|j: int| 0 <= j < i ==> a@[j] == b@[j],
        decreases a@.len() - i,
    {
        if a[i] != b[i] {
            return false;
        }
        i = i + 1;
    }
    proof {
        assert(a@ =~= b@);
    }
    true
}

} // verus!
