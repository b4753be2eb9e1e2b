//! Per-provider share balances of the liquidity pool.
//!
//! The ledger is an association list from provider account ids to share
//! balances, with unique keys and non-negative balances. Its two derived
//! quantities — the balance of one provider and the sum of all balances —
//! are what the pool's share-conservation invariant is stated over.

use vstd::prelude::*;

verus! {

/// Balance of account `a` in the sequence of entries: the value of the
/// first entry with key `a`, or zero when no entry carries that key.
spec fn seq_bal(s: Seq<(u64, i128)>, a: u64) -> int
    decreases s.len(),
{
    if s.len() == 0 {
        0
    } else if s[0].0 == a {
        s[0].1 as int
    } else {
        seq_bal(s.drop_first(), a)
    }
}

/// Sum of all balances in the sequence of entries.
spec fn seq_total(s: Seq<(u64, i128)>) -> int
    decreases s.len(),
{
    if s.len() == 0 {
        0
    } else {
        s[0].1 + seq_total(s.drop_first())
    }
}

/// The share balances of all liquidity providers.
pub struct ShareLedger {
    entries: Vec<(u64, i128)>,
}

impl View for ShareLedger {
    type V = Seq<(u64, i128)>;

    closed spec fn view(&self) -> Seq<(u64, i128)> {
        self.entries@
    }
}

impl ShareLedger {
    /// Keys are unique and every balance is non-negative.
    pub closed spec fn wf(self) -> bool {
        &&& forall|i: int, j: int|
            0 <= i < j < self.entries@.len() ==> (#[trigger] self.entries@[i]).0 != (
            #[trigger] self.entries@[j]).0
        &&& forall|i: int| 0 <= i < self.entries@.len() ==> (#[trigger] self.entries@[i]).1 >= 0
    }

    /// The share balance of provider `a` (zero when unknown).
    pub closed spec fn bal(self, a: u64) -> int {
        seq_bal(self.entries@, a)
    }

    /// The sum of all providers' balances.
    pub closed spec fn total(self) -> int {
        seq_total(self.entries@)
    }

    pub fn new() -> (r: Self)
        ensures
            r.wf(),
            r.total() == 0,
            forall|a: u64| r.bal(a) == 0,
    {
        ShareLedger { entries: Vec::new() }
    }

    /// Read the balance of `a`.
    #[verifier::loop_isolation(false)]
    pub fn get(&self, a: u64) -> (r: i128)
        ensures
            r == self.bal(a),
    {
        let n = self.entries.len();
        let mut i: usize = 0;
        while i < n
            invariant
                n == self.entries@.len(),
                0 <= i <= n,
                forall|k: int| 0 <= k < i ==> (#[trigger] self.entries@[k]).0 != a,
            decreases n - i,
        {
            if self.entries[i].0 == a {
                proof {
                    lemma_bal_at_index(self.entries@, i as int, a);
                }
                return self.entries[i].1;
            }
            i = i + 1;
        }
        proof {
            lemma_bal_absent(self.entries@, a);
        }
        0
    }

    /// Set the balance of `a` to `v`; every other balance is unchanged and
    /// the sum moves by exactly the difference.
    #[verifier::loop_isolation(false)]
    pub fn set(&mut self, a: u64, v: i128)
        requires
            old(self).wf(),
            v >= 0,
        ensures
            final(self).wf(),
            final(self).bal(a) == v,
            forall|b: u64| b != a ==> final(self).bal(b) == old(self).bal(b),
            final(self).total() == old(self).total() - old(self).bal(a) + v,
    {
        let n = self.entries.len();
        let mut i: usize = 0;
        while i < n
            invariant
                self == old(self),
                n == self.entries@.len(),
                0 <= i <= n,
                forall|k: int| 0 <= k < i ==> (#[trigger] self.entries@[k]).0 != a,
            decreases n - i,
        {
            if self.entries[i].0 == a {
                proof {
                    lemma_bal_at_index(self.entries@, i as int, a);
                    lemma_update_effects(self.entries@, i as int, v);
                }
                self.entries[i] = (a, v);
                return ;
            }
            i = i + 1;
        }
        let ghost orig = self.entries@;
        proof {
            lemma_bal_absent(orig, a);
            lemma_push_effects(orig, a, v);
        }
        self.entries.push((a, v));
        proof {
            assert(self.entries@ =~= orig.push((a, v)));
            assert forall|p: int, q: int|
                0 <= p < q < self.entries@.len() implies (#[trigger] self.entries@[p]).0 != (
            #[trigger] self.entries@[q]).0 by {
                assert(self.entries@[p] == orig[p]);
                if q == orig.len() {
                    assert(self.entries@[q] == (a, v));
                    assert(orig[p].0 != a);
                } else {
                    assert(self.entries@[q] == orig[q]);
                    assert(orig[p].0 != orig[q].0);
                }
            }
            assert forall|k: int| 0 <= k < self.entries@.len() implies (
            #[trigger] self.entries@[k]).1 >= 0 by {
                if k < orig.len() {
                    assert(self.entries@[k] == orig[k]);
                } else {
                    assert(self.entries@[k] == (a, v));
                }
            }
        }
    }
}

impl ShareLedger {
    /// Number of entries, for a host that persists the ledger.
    pub fn len(&self) -> (n: usize)
        ensures
            n == self@.len(),
    {
        self.entries.len()
    }

    /// The entry at position `i`, for a host that persists the ledger.
    pub fn entry_at(&self, i: usize) -> (r: (u64, i128))
        requires
            i < self@.len(),
        ensures
            r == self@[i as int],
    {
        self.entries[i]
    }
}

/// When entry `i` carries key `a` and no earlier entry does, the balance of
/// `a` is exactly that entry's value.
proof fn lemma_bal_at_index(s: Seq<(u64, i128)>, i: int, a: u64)
    requires
        0 <= i < s.len(),
        s[i].0 == a,
        forall|k: int| 0 <= k < i ==> (#[trigger] s[k]).0 != a,
    ensures
        seq_bal(s, a) == s[i].1,
    decreases s.len(),
{
    if i > 0 {
        lemma_bal_at_index(s.drop_first(), i - 1, a);
    }
}

/// A key that appears in no entry has balance zero.
proof fn lemma_bal_absent(s: Seq<(u64, i128)>, a: u64)
    requires
        forall|k: int| 0 <= k < s.len() ==> (#[trigger] s[k]).0 != a,
    ensures
        seq_bal(s, a) == 0,
    decreases s.len(),
{
    if s.len() > 0 {
        lemma_bal_absent(s.drop_first(), a);
    }
}

/// Overwriting the value at index `i` (keeping its key) moves the sum by
/// the difference, rewrites the balance of that key when keys are unique,
/// and leaves every other balance alone.
proof fn lemma_update_effects(s: Seq<(u64, i128)>, i: int, v: i128)
    requires
        0 <= i < s.len(),
        forall|p: int, q: int| 0 <= p < q < s.len() ==> (#[trigger] s[p]).0 != (#[trigger] s[q]).0,
    ensures
        seq_total(s.update(i, (s[i].0, v))) == seq_total(s) - s[i].1 + v,
        seq_bal(s.update(i, (s[i].0, v)), s[i].0) == v,
        forall|b: u64| b != s[i].0 ==> seq_bal(s.update(i, (s[i].0, v)), b) == seq_bal(s, b),
    decreases s.len(),
{
    let t = s.update(i, (s[i].0, v));
    if i == 0 {
        assert(t.drop_first() =~= s.drop_first());
    } else {
        lemma_update_effects(s.drop_first(), i - 1, v);
        assert(t.drop_first() =~= s.drop_first().update(i - 1, (s[i].0, v)));
        assert forall|b: u64| b != s[i].0 implies seq_bal(t, b) == seq_bal(s, b) by {
            assert(seq_bal(t, b) == if t[0].0 == b {
                t[0].1 as int
            } else {
                seq_bal(t.drop_first(), b)
            });
            assert(seq_bal(s, b) == if s[0].0 == b {
                s[0].1 as int
            } else {
                seq_bal(s.drop_first(), b)
            });
        }
    }
}

/// Appending an entry for a key absent so far adds its value to the sum,
/// gives that key the new balance, and leaves every other balance alone.
proof fn lemma_push_effects(s: Seq<(u64, i128)>, a: u64, v: i128)
    requires
        forall|k: int| 0 <= k < s.len() ==> (#[trigger] s[k]).0 != a,
    ensures
        seq_total(s.push((a, v))) == seq_total(s) + v,
        seq_bal(s.push((a, v)), a) == v,
        forall|b: u64| b != a ==> seq_bal(s.push((a, v)), b) == seq_bal(s, b),
    decreases s.len(),
{
    let t = s.push((a, v));
    if s.len() == 0 {
        assert(t.drop_first() =~= s);
    } else {
        lemma_push_effects(s.drop_first(), a, v);
        assert(t.drop_first() =~= s.drop_first().push((a, v)));
        assert forall|b: u64| b != a implies seq_bal(t, b) == seq_bal(s, b) by {
            assert(seq_bal(t, b) == if t[0].0 == b {
                t[0].1 as int
            } else {
                seq_bal(t.drop_first(), b)
            });
            assert(seq_bal(s, b) == if s[0].0 == b {
                s[0].1 as int
            } else {
                seq_bal(s.drop_first(), b)
            });
        }
        assert(seq_bal(t, a) == v);
    }
}

/// Under well-formedness no single balance exceeds the sum of all balances,
/// and the sum itself is non-negative.
pub proof fn lemma_bal_le_total(l: ShareLedger, a: u64)
    requires
        l.wf(),
    ensures
        0 <= l.bal(a) <= l.total(),
{
    lemma_seq_bal_le_total(l.entries@, a);
}

proof fn lemma_seq_bal_le_total(s: Seq<(u64, i128)>, a: u64)
    requires
        forall|i: int| 0 <= i < s.len() ==> (#[trigger] s[i]).1 >= 0,
    ensures
        0 <= seq_bal(s, a) <= seq_total(s),
    decreases s.len(),
{
    if s.len() > 0 {
        lemma_seq_bal_le_total(s.drop_first(), a);
    }
}

} // verus!
