//! Ordered component tables.
//!
//! A `Table<C>` maps entity ids to component values.  It is kept as an
//! association vector with strictly increasing keys, so lookup is by scan,
//! iteration is always in ascending entity-id order, and two tables that
//! hold the same mapping are identical — system output can therefore never
//! depend on the order in which entities were inserted.

use vstd::prelude::*;

verus! {

/// The keys of an association sequence, in storage order.
pub open spec fn key_seq<C>(s: Seq<(u64, C)>) -> Seq<u64> {
    s.map_values(|p: (u64, C)| p.0)
}

/// Strictly increasing keys.
pub open spec fn wf_pairs<C>(s: Seq<(u64, C)>) -> bool {
    forall|i: int, j: int| 0 <= i < j < s.len() ==> (#[trigger] s[i]).0 < (#[trigger] s[j]).0
}

/// Whether some pair carries the key `k`.
pub open spec fn has_key<C>(s: Seq<(u64, C)>, k: u64) -> bool {
    exists|i: int| 0 <= i < s.len() && (#[trigger] s[i]).0 == k
}

/// The index carrying key `k` (meaningful only when `has_key`).
pub open spec fn find_key<C>(s: Seq<(u64, C)>, k: u64) -> int {
    choose|i: int| 0 <= i < s.len() && (#[trigger] s[i]).0 == k
}

/// The mapping an association sequence denotes.
pub open spec fn pairs_view<C>(s: Seq<(u64, C)>) -> Map<u64, C> {
    Map::new(|k: u64| has_key(s, k), |k: u64| s[find_key(s, k)].1)
}

/// With strictly increasing keys, the pair at index `i` is what the
/// denoted mapping says about its key.
pub proof fn lemma_pairs_at<C>(s: Seq<(u64, C)>, i: int)
    requires
        wf_pairs(s),
        0 <= i < s.len(),
    ensures
        pairs_view(s).dom().contains(s[i].0),
        pairs_view(s)[s[i].0] == s[i].1,
{
    assert(has_key(s, s[i].0));
    let j = find_key(s, s[i].0);
    assert(0 <= j < s.len() && s[j].0 == s[i].0);
    if i < j || j < i {
        assert(false);
    }
}

/// The key sequence is the keys in storage order, and it carries a key
/// exactly when the association does.
pub proof fn lemma_key_seq<C>(s: Seq<(u64, C)>)
    ensures
        key_seq(s).len() == s.len(),
        forall|i: int| 0 <= i < s.len() ==> key_seq(s)[i] == (#[trigger] s[i]).0,
        forall|k: u64| #[trigger] has_key(s, k) <==> key_seq(s).contains(k),
{
    assert forall|k: u64| #[trigger] has_key(s, k) <==> key_seq(s).contains(k) by {
        if has_key(s, k) {
            let i = choose|i: int| 0 <= i < s.len() && (#[trigger] s[i]).0 == k;
            assert(key_seq(s)[i] == k);
        }
        if key_seq(s).contains(k) {
            let i = choose|i: int| 0 <= i < key_seq(s).len() && key_seq(s)[i] == k;
            assert(s[i].0 == k);
        }
    }
}

/// Strictly increasing id sequence.
pub open spec fn strictly_sorted(s: Seq<u64>) -> bool {
    forall|i: int, j: int| 0 <= i < j < s.len() ==> s[i] < s[j]
}

/// Two strictly sorted sequences with the same members are identical.
pub proof fn lemma_sorted_seq_unique(s1: Seq<u64>, s2: Seq<u64>)
    requires
        strictly_sorted(s1),
        strictly_sorted(s2),
        forall|x: u64| s1.contains(x) <==> s2.contains(x),
    ensures
        s1 == s2,
    decreases s1.len(),
{
    if s1.len() == 0 {
        if s2.len() > 0 {
            assert(s2.contains(s2[0]));
            assert(false);
        }
        assert(s1 =~= s2);
    } else {
        assert(s1.contains(s1[0]));
        if s2.len() == 0 {
            assert(false);
        }
        assert(s2.contains(s2[0]));
        // both heads are the minimum of the common member set
        let i1 = choose|i: int| 0 <= i < s1.len() && s1[i] == s2[0];
        let i2 = choose|i: int| 0 <= i < s2.len() && s2[i] == s1[0];
        assert(s1[0] <= s1[i1] && s2[0] <= s2[i2]);
        assert(s1[0] == s2[0]);
        let t1 = s1.skip(1);
        let t2 = s2.skip(1);
        assert(strictly_sorted(t1) && strictly_sorted(t2)) by {
            assert(forall|i: int, j: int|
                0 <= i < j < t1.len() ==> t1[i] == s1[i + 1] && t1[j] == s1[j + 1]);
            assert(forall|i: int, j: int|
                0 <= i < j < t2.len() ==> t2[i] == s2[i + 1] && t2[j] == s2[j + 1]);
        }
        assert forall|x: u64| t1.contains(x) <==> t2.contains(x) by {
            if t1.contains(x) {
                let i = choose|i: int| 0 <= i < t1.len() && t1[i] == x;
                assert(s1[i + 1] == x);
                assert(s1[0] < x);
                assert(s1.contains(x));
                let j = choose|j: int| 0 <= j < s2.len() && s2[j] == x;
                if j == 0 {
                    assert(false);
                }
                assert(t2[j - 1] == x);
            }
            if t2.contains(x) {
                let i = choose|i: int| 0 <= i < t2.len() && t2[i] == x;
                assert(s2[i + 1] == x);
                assert(s2[0] < x);
                assert(s2.contains(x));
                let j = choose|j: int| 0 <= j < s1.len() && s1[j] == x;
                if j == 0 {
                    assert(false);
                }
                assert(t1[j - 1] == x);
            }
        }
        lemma_sorted_seq_unique(t1, t2);
        assert(s1 =~= s2) by {
            assert(forall|i: int| 1 <= i < s1.len() ==> s1[i] == t1[i - 1]);
            assert(forall|i: int| 1 <= i < s2.len() ==> s2[i] == t2[i - 1]);
        }
    }
}

/// Two well-formed tables over the same entities list their keys in the
/// same order.
pub proof fn lemma_keys_by_dom<C: Copy, D: Copy>(a: Table<C>, b: Table<D>)
    requires
        a.wf(),
        b.wf(),
        a@.dom() == b@.dom(),
    ensures
        a.keys() == b.keys(),
{
    lemma_key_seq(a.v@);
    lemma_key_seq(b.v@);
    assert(strictly_sorted(a.keys()) && strictly_sorted(b.keys())) by {
        assert(forall|i: int|
            0 <= i < a.v@.len() ==> a.keys()[i] == (#[trigger] a.v@[i]).0);
        assert(forall|i: int|
            0 <= i < b.v@.len() ==> b.keys()[i] == (#[trigger] b.v@[i]).0);
    }
    assert forall|x: u64| a.keys().contains(x) <==> b.keys().contains(x) by {
        assert(has_key(a.v@, x) == a@.dom().contains(x));
        assert(has_key(b.v@, x) == b@.dom().contains(x));
    }
    lemma_sorted_seq_unique(a.keys(), b.keys());
}

/// A well-formed table is canonical: the mapping determines the storage.
pub proof fn lemma_table_canonical<C: Copy>(a: Table<C>, b: Table<C>)
    requires
        a.wf(),
        b.wf(),
        a@ == b@,
    ensures
        a.v@ == b.v@,
{
    lemma_keys_by_dom(a, b);
    lemma_key_seq(a.v@);
    lemma_key_seq(b.v@);
    assert forall|i: int| 0 <= i < a.v@.len() implies a.v@[i] == b.v@[i] by {
        lemma_pairs_at(a.v@, i);
        lemma_pairs_at(b.v@, i);
        assert(a.v@[i].0 == a.keys()[i] && b.v@[i].0 == b.keys()[i]);
        assert(a.v@[i].1 == a@[a.v@[i].0] && b.v@[i].1 == b@[b.v@[i].0]);
    }
    assert(a.v@ =~= b.v@);
}

/// An id-keyed component table with ascending-id iteration.
#[derive(Clone, Debug)]
pub struct Table<C> {
    pub v: Vec<(u64, C)>,
}

impl<C: Copy> Table<C> {
    pub open spec fn wf(&self) -> bool {
        wf_pairs(self.v@)
    }

    pub open spec fn view(&self) -> Map<u64, C> {
        pairs_view(self.v@)
    }

    /// Keys in iteration (ascending) order.
    pub open spec fn keys(&self) -> Seq<u64> {
        key_seq(self.v@)
    }

    pub fn new() -> (t: Self)
        ensures
            t.wf(),
            t@ == Map::<u64, C>::empty(),
            t.keys().len() == 0,
    {
        let t = Table { v: Vec::new() };
        proof {
            assert(t@ =~= Map::<u64, C>::empty());
        }
        t
    }

    pub fn len(&self) -> (n: usize)
        ensures
            n == self.keys().len(),
    {
        self.v.len()
    }

    /// The id at iteration position `i`.
    pub fn key_at(&self, i: usize) -> (k: u64)
        requires
            self.wf(),
            i < self.keys().len(),
        ensures
            k == self.keys()[i as int],
            self@.dom().contains(k),
            self@[k] == self.v@[i as int].1,
    {
        proof {
            lemma_pairs_at(self.v@, i as int);
        }
        self.v[i].0
    }

    /// The component at iteration position `i`.
    pub fn val_at(&self, i: usize) -> (c: C)
        requires
            self.wf(),
            i < self.keys().len(),
        ensures
            c == self@[self.keys()[i as int]],
    {
        proof {
            lemma_pairs_at(self.v@, i as int);
        }
        self.v[i].1
    }

    pub fn contains(&self, k: u64) -> (r: bool)
        requires
            self.wf(),
        ensures
            r == self@.dom().contains(k),
    {
        let mut i: usize = 0;
        while i < self.v.len()
            invariant
                wf_pairs(self.v@),
                i <= self.v@.len(),
                forall|j: int| 0 <= j < i ==> (#[trigger] self.v@[j]).0 != k,
            decreases self.v@.len() - i,
        {
            if self.v[i].0 == k {
                return true;
            }
            i += 1;
        }
        false
    }

    pub fn get(&self, k: u64) -> (r: Option<C>)
        requires
            self.wf(),
        ensures
            match r {
                Some(c) => self@.dom().contains(k) && c == self@[k],
                None => !self@.dom().contains(k),
            },
    {
        let mut i: usize = 0;
        while i < self.v.len()
            invariant
                wf_pairs(self.v@),
                i <= self.v@.len(),
                forall|j: int| 0 <= j < i ==> (#[trigger] self.v@[j]).0 != k,
            decreases self.v@.len() - i,
        {
            if self.v[i].0 == k {
                proof {
                    lemma_pairs_at(self.v@, i as int);
                }
                return Some(self.v[i].1);
            }
            i += 1;
        }
        None
    }

    /// Insert or overwrite the component of entity `k`.
    pub fn insert(&mut self, k: u64, c: C)
        requires
            old(self).wf(),
        ensures
            final(self).wf(),
            final(self)@ == old(self)@.insert(k, c),
    {
        let ghost s_old = self.v@;
        let mut i: usize = 0;
        while i < self.v.len() && self.v[i].0 < k
            invariant
                wf_pairs(s_old),
                self.v@ == s_old,
                i <= self.v@.len(),
                forall|j: int| 0 <= j < i ==> (#[trigger] self.v@[j]).0 < k,
            decreases self.v@.len() - i,
        {
            i += 1;
        }
        if i < self.v.len() && self.v[i].0 == k {
            self.v[i] = (k, c);
            proof {
                lemma_view_update(s_old, i as int, c);
            }
        } else {
            proof {
                assert(forall|j: int|
                    i <= j < s_old.len() ==> s_old[i as int].0 <= (#[trigger] s_old[j]).0);
            }
            self.v.insert(i, (k, c));
            proof {
                lemma_view_insert(s_old, i as int, k, c);
            }
        }
    }

    /// Drop entity `k`'s component, if any.
    pub fn remove(&mut self, k: u64)
        requires
            old(self).wf(),
        ensures
            final(self).wf(),
            final(self)@ == old(self)@.remove(k),
    {
        let ghost s_old = self.v@;
        let mut i: usize = 0;
        while i < self.v.len()
            invariant
                wf_pairs(s_old),
                old(self).v@ == s_old,
                self.v@ == s_old,
                i <= self.v@.len(),
                forall|j: int| 0 <= j < i ==> (#[trigger] self.v@[j]).0 != k,
            decreases self.v@.len() - i,
        {
            if self.v[i].0 == k {
                self.v.remove(i);
                proof {
                    lemma_view_remove(s_old, i as int);
                }
                return;
            }
            i += 1;
        }
        proof {
            assert(!has_key(s_old, k));
            assert(self@ =~= old(self)@.remove(k));
        }
    }

    /// An identical copy (components are plain `Copy` data).
    pub fn duplicate(&self) -> (t: Self)
        ensures
            t.v@ == self.v@,
            t@ == self@,
            t.keys() == self.keys(),
            t.wf() == self.wf(),
    {
        let mut v: Vec<(u64, C)> = Vec::new();
        let mut i: usize = 0;
        while i < self.v.len()
            invariant
                i <= self.v@.len(),
                v@ == self.v@.take(i as int),
            decreases self.v@.len() - i,
        {
            v.push(self.v[i]);
            i += 1;
        }
        proof {
            assert(v@ =~= self.v@);
        }
        Table { v }
    }

    pub fn clear(&mut self)
        ensures
            final(self).wf(),
            final(self)@ == Map::<u64, C>::empty(),
            final(self).keys().len() == 0,
    {
        self.v.clear();
        proof {
            assert(self@ =~= Map::<u64, C>::empty());
        }
    }
}

/// Overwriting the pair at `i` in place updates the mapping at its key.
proof fn lemma_view_update<C>(s: Seq<(u64, C)>, i: int, c: C)
    requires
        wf_pairs(s),
        0 <= i < s.len(),
    ensures
        wf_pairs(s.update(i, (s[i].0, c))),
        pairs_view(s.update(i, (s[i].0, c))) == pairs_view(s).insert(s[i].0, c),
{
    let t = s.update(i, (s[i].0, c));
    assert forall|q: u64| #[trigger] has_key(t, q) == has_key(s, q) by {
        if has_key(t, q) {
            let w = choose|w: int| 0 <= w < t.len() && t[w].0 == q;
            assert(s[w].0 == q);
        }
        if has_key(s, q) {
            let w = choose|w: int| 0 <= w < s.len() && s[w].0 == q;
            assert(t[w].0 == q);
        }
    };
    assert forall|q: u64| has_key(t, q) implies pairs_view(t)[q] == pairs_view(s).insert(
        s[i].0,
        c,
    )[q] by {
        let w = find_key(t, q);
        let w2 = find_key(s, q);
        assert(0 <= w < t.len() && t[w].0 == q);
        assert(0 <= w2 < s.len() && s[w2].0 == q);
        if w < w2 || w2 < w {
            assert(false);
        }
        if q == s[i].0 && w != i {
            assert(false);
        }
    };
    assert(pairs_view(t) =~= pairs_view(s).insert(s[i].0, c));
}

/// Inserting a fresh pair at its sorted position inserts into the mapping.
proof fn lemma_view_insert<C>(s: Seq<(u64, C)>, i: int, k: u64, c: C)
    requires
        wf_pairs(s),
        0 <= i <= s.len(),
        forall|j: int| 0 <= j < i ==> (#[trigger] s[j]).0 < k,
        forall|j: int| i <= j < s.len() ==> (#[trigger] s[j]).0 > k,
    ensures
        wf_pairs(s.insert(i, (k, c))),
        pairs_view(s.insert(i, (k, c))) == pairs_view(s).insert(k, c),
{
    let t = s.insert(i, (k, c));
    assert(t.len() == s.len() + 1);
    assert(forall|j: int| 0 <= j < i ==> t[j] == s[j]);
    assert(forall|j: int| i < j < t.len() ==> t[j] == s[j - 1]);
    assert(t[i] == (k, c));
    assert forall|a: int, b: int| 0 <= a < b < t.len() implies (#[trigger] t[a]).0 < (
    #[trigger] t[b]).0 by {
        if a < i && b == i {
        } else if a == i && b > i {
        } else if a < i && b > i {
            assert(s[a].0 < k && k < s[b - 1].0);
        }
    }
    assert forall|q: u64| #[trigger] has_key(t, q) == (q == k || has_key(s, q)) by {
        if has_key(t, q) {
            let w = choose|w: int| 0 <= w < t.len() && t[w].0 == q;
            if w < i {
                assert(s[w].0 == q);
            } else if w > i {
                assert(s[w - 1].0 == q);
            }
        }
        if has_key(s, q) {
            let w = choose|w: int| 0 <= w < s.len() && s[w].0 == q;
            if w < i {
                assert(t[w].0 == q);
            } else {
                assert(t[w + 1].0 == q);
            }
        }
        if q == k {
            assert(t[i].0 == q);
        }
    };
    assert forall|q: u64| has_key(t, q) implies pairs_view(t)[q] == pairs_view(s).insert(k, c)[q] by {
        let w = find_key(t, q);
        assert(0 <= w < t.len() && t[w].0 == q);
        if q == k {
            if w < i || w > i {
                assert(false);
            }
        } else {
            if w < i {
                assert(has_key(s, q));
                let w2 = find_key(s, q);
                assert(0 <= w2 < s.len() && s[w2].0 == q);
                if w2 < w || w < w2 {
                    assert(false);
                }
            } else {
                assert(w > i);
                assert(s[w - 1].0 == q);
                assert(has_key(s, q));
                let w2 = find_key(s, q);
                assert(0 <= w2 < s.len() && s[w2].0 == q);
                if w2 < w - 1 || w - 1 < w2 {
                    assert(false);
                }
            }
        }
    };
    assert(pairs_view(t) =~= pairs_view(s).insert(k, c));
}

/// Removing the pair at `i` removes its key from the mapping.
proof fn lemma_view_remove<C>(s: Seq<(u64, C)>, i: int)
    requires
        wf_pairs(s),
        0 <= i < s.len(),
    ensures
        wf_pairs(s.remove(i)),
        pairs_view(s.remove(i)) == pairs_view(s).remove(s[i].0),
{
    let k = s[i].0;
    let t = s.remove(i);
    assert(forall|j: int| 0 <= j < i ==> t[j] == s[j]);
    assert(forall|j: int| i <= j < t.len() ==> t[j] == s[j + 1]);
    assert forall|q: u64| #[trigger] has_key(t, q) == (q != k && has_key(s, q)) by {
        if has_key(t, q) {
            let w = choose|w: int| 0 <= w < t.len() && t[w].0 == q;
            if w < i {
                assert(s[w].0 == q);
                if q == k {
                    assert(false);
                }
            } else {
                assert(s[w + 1].0 == q);
                if q == k {
                    assert(false);
                }
            }
        }
        if q != k && has_key(s, q) {
            let w = choose|w: int| 0 <= w < s.len() && s[w].0 == q;
            if w < i {
                assert(t[w].0 == q);
            } else if w > i {
                assert(t[w - 1].0 == q);
            }
        }
    };
    assert forall|q: u64| has_key(t, q) implies pairs_view(t)[q] == pairs_view(s).remove(k)[q] by {
        let w = find_key(t, q);
        assert(0 <= w < t.len() && t[w].0 == q);
        assert(has_key(s, q));
        let w2 = find_key(s, q);
        assert(0 <= w2 < s.len() && s[w2].0 == q);
        if w < i {
            if w2 < w || w < w2 {
                assert(false);
            }
        } else {
            if w2 < w + 1 || w + 1 < w2 {
                assert(false);
            }
        }
    };
    assert(pairs_view(t) =~= pairs_view(s).remove(k));
}

} // verus!
