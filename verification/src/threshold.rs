//! The alternative, threshold eviction policy.
//!
//! The library's default policy is immediate eviction (`broadcast_pass`): a
//! failed delivery removes the listener at the end of the same pass. Under
//! the policy here a listener instead carries a count of consecutive failed
//! deliveries, kept across passes and reset by any success; it is evicted by
//! the pass in which the count reaches the registry's configured threshold.
//! Eviction stays positional and is applied in ascending original
//! registration order within a pass.

use vstd::prelude::*;

verus! {

/// One registered listener under the threshold policy: its slot handle and
/// its current count of consecutive failed deliveries.
#[derive(Clone, Copy, Debug, PartialEq, Eq, Structural)]
pub struct CountedListener {
    pub handle: u64,
    pub failures: u32,
}

/// The registry contents after one pass under the threshold policy:
/// `ok[i]` says whether delivery to slot `i` succeeded. A success resets the
/// slot's failure count; a failure raises it, and the slot is dropped when
/// the count reaches `n`. Slots past the snapshot are untouched.
pub open spec fn survivors_counted(s: Seq<CountedListener>, ok: Seq<bool>, n: u32) -> Seq<
    CountedListener,
>
    decreases ok.len(),
{
    if ok.len() == 0 || ok.len() > s.len() {
        s
    } else {
        let j = ok.len() - 1;
        let e = s[j];
        if ok[j] {
            survivors_counted(
                s.update(j, CountedListener { handle: e.handle, failures: 0 }),
                ok.drop_last(),
                n,
            )
        } else if e.failures + 1 >= n {
            survivors_counted(s.remove(j), ok.drop_last(), n)
        } else {
            survivors_counted(
                s.update(
                    j,
                    CountedListener { handle: e.handle, failures: (e.failures + 1) as u32 },
                ),
                ok.drop_last(),
                n,
            )
        }
    }
}

/// Every failure count stays below the threshold after a pass, provided all
/// counts were below it before: the pass's own invariant.
pub proof fn lemma_survivors_counted_wf(s: Seq<CountedListener>, ok: Seq<bool>, n: u32)
    requires
        n >= 1,
        forall|i: int| 0 <= i < s.len() ==> s[i].failures < n,
    ensures
        forall|i: int|
            0 <= i < survivors_counted(s, ok, n).len() ==> survivors_counted(
                s,
                ok,
                n,
            )[i].failures < n,
    decreases ok.len(),
{
    if ok.len() == 0 || ok.len() > s.len() {
    } else {
        let j = ok.len() - 1;
        let e = s[j];
        if ok[j] {
            let s2 = s.update(j, CountedListener { handle: e.handle, failures: 0 });
            assert(forall|i: int| 0 <= i < s2.len() ==> s2[i].failures < n);
            lemma_survivors_counted_wf(s2, ok.drop_last(), n);
            assert(survivors_counted(s, ok, n) == survivors_counted(s2, ok.drop_last(), n));
        } else if e.failures + 1 >= n {
            let s2 = s.remove(j);
            assert(forall|i: int| 0 <= i < s2.len() ==> s2[i].failures < n);
            lemma_survivors_counted_wf(s2, ok.drop_last(), n);
            assert(survivors_counted(s, ok, n) == survivors_counted(s2, ok.drop_last(), n));
        } else {
            let s2 = s.update(
                j,
                CountedListener { handle: e.handle, failures: (e.failures + 1) as u32 },
            );
            assert(forall|i: int| 0 <= i < s2.len() ==> s2[i].failures < n);
            lemma_survivors_counted_wf(s2, ok.drop_last(), n);
            assert(survivors_counted(s, ok, n) == survivors_counted(s2, ok.drop_last(), n));
        }
    }
}

/// An ordered listener registry that evicts a listener only once its
/// deliveries have failed in `threshold` consecutive passes.
pub struct ThresholdRegistry {
    entries: Vec<CountedListener>,
    threshold: u32,
}

impl View for ThresholdRegistry {
    type V = Seq<CountedListener>;

    closed spec fn view(&self) -> Seq<CountedListener> {
        self.entries@
    }
}

impl ThresholdRegistry {
    /// The configured number of consecutive failures a listener tolerates
    /// before the pass that observes the last of them evicts it.
    pub closed spec fn spec_threshold(&self) -> u32 {
        self.threshold
    }

    /// Every stored failure count lies below the threshold, which is at
    /// least one; constructors establish this and every method keeps it.
    pub open spec fn wf(&self) -> bool {
        &&& self.spec_threshold() >= 1
        &&& forall|i: int| 0 <= i < self@.len() ==> self@[i].failures < self.spec_threshold()
    }

    /// A fresh, empty registry with the given eviction threshold.
    pub fn new(threshold: u32) -> (r: ThresholdRegistry)
        requires
            threshold >= 1,
        ensures
            r.wf(),
            r@ == Seq::<CountedListener>::empty(),
            r.spec_threshold() == threshold,
    {
        ThresholdRegistry { entries: Vec::new(), threshold }
    }

    /// The configured threshold.
    pub fn threshold(&self) -> (n: u32)
        ensures
            n == self.spec_threshold(),
    {
        self.threshold
    }

    /// The number of registered listeners.
    pub fn len(&self) -> (n: usize)
        ensures
            n == self@.len(),
    {
        self.entries.len()
    }

    /// The entry at slot `i`.
    pub fn get(&self, i: usize) -> (e: CountedListener)
        requires
            i < self@.len(),
        ensures
            e == self@[i as int],
    {
        self.entries[i]
    }

    /// Appends `handle` with a clean failure record.
    pub fn register(&mut self, handle: u64)
        requires
            old(self).wf(),
        ensures
            final(self).wf(),
            final(self)@ == old(self)@.push(CountedListener { handle, failures: 0 }),
            final(self).spec_threshold() == old(self).spec_threshold(),
    {
        self.entries.push(CountedListener { handle, failures: 0 });
        proof {
            assert forall|i: int| 0 <= i < self@.len() implies self@[i].failures
                < self.spec_threshold() by {
                if i < old(self)@.len() {
                    assert(self@[i] == old(self)@[i]);
                }
            }
        }
    }

    /// The handles to deliver to in this pass, in registry order.
    pub fn snapshot_handles(&self) -> (s: Vec<u64>)
        ensures
            s@ == self@.map_values(|e: CountedListener| e.handle),
    {
        let ghost mapped = self@.map_values(|e: CountedListener| e.handle);
        let mut s: Vec<u64> = Vec::new();
        let mut i: usize = 0;
        while i < self.entries.len()
            invariant
                i <= self.entries.len(),
                mapped == self@.map_values(|e: CountedListener| e.handle),
                s@ == mapped.subrange(0, i as int),
            decreases self.entries.len() - i,
        {
            s.push(self.entries[i].handle);
            i = i + 1;
        }
        proof {
            assert(s@ =~= mapped);
        }
        s
    }

    /// Ends a pass: applies the per-slot outcomes to the failure counts and
    /// evicts exactly the slots whose count reached the threshold.
    pub fn finish_pass(&mut self, ok: &Vec<bool>)
        requires
            old(self).wf(),
            ok@.len() <= old(self)@.len(),
        ensures
            final(self).wf(),
            final(self)@ == survivors_counted(old(self)@, ok@, old(self).spec_threshold()),
            final(self).spec_threshold() == old(self).spec_threshold(),
    {
        proof {
            assert(ok@.take(ok@.len() as int) =~= ok@);
            lemma_survivors_counted_wf(self@, ok@, self.threshold);
        }
        let mut j: usize = ok.len();
        while j > 0
            invariant
                j <= ok@.len(),
                j <= self@.len(),
                self.spec_threshold() == old(self).spec_threshold(),
                self.spec_threshold() >= 1,
                forall|i: int| 0 <= i < self@.len() ==> self@[i].failures < self.spec_threshold(),
                survivors_counted(self@, ok@.take(j as int), self.spec_threshold())
                    == survivors_counted(old(self)@, ok@, old(self).spec_threshold()),
            decreases j,
        {
            j = j - 1;
            proof {
                assert(ok@.take(j + 1).drop_last() =~= ok@.take(j as int));
                assert(ok@.take(j + 1)[j as int] == ok@[j as int]);
            }
            let e = self.entries[j];
            if ok[j] {
                self.entries[j] = CountedListener { handle: e.handle, failures: 0 };
            } else if e.failures + 1 >= self.threshold {
                self.entries.remove(j);
            } else {
                self.entries[j] = CountedListener { handle: e.handle, failures: e.failures + 1 };
            }
        }
        proof {
            assert(ok@.take(0) =~= Seq::<bool>::empty());
        }
    }
}

/// The registry after `k` passes in which every delivery to the listener
/// failed, starting from a registry holding that one listener.
pub open spec fn failing_passes(s: Seq<CountedListener>, n: u32, k: nat) -> Seq<CountedListener>
    decreases k,
{
    if k == 0 {
        s
    } else {
        failing_passes(
            survivors_counted(s, Seq::new(s.len(), |i: int| false), n),
            n,
            (k - 1) as nat,
        )
    }
}

/// A listener that fails every delivery survives the first `threshold - 1`
/// passes, carrying its count, and is evicted by exactly the pass in which
/// its `threshold`-th consecutive failure is observed.
pub proof fn lemma_eviction_after_exactly_threshold_failures(h: u64, c: u32, n: u32, k: nat)
    requires
        1 <= n,
        c < n,
    ensures
        c + k < n ==> failing_passes(seq![CountedListener { handle: h, failures: c }], n, k)
            == seq![CountedListener { handle: h, failures: (c + k) as u32 }],
        c + k >= n ==> failing_passes(seq![CountedListener { handle: h, failures: c }], n, k)
            == Seq::<CountedListener>::empty(),
    decreases k,
{
    let s = seq![CountedListener { handle: h, failures: c }];
    if k == 0 {
    } else {
        let all_fail = Seq::new(s.len(), |i: int| false);
        assert(all_fail.len() == 1 && !all_fail[0]);
        assert(all_fail.drop_last() =~= Seq::<bool>::empty());
        if c + 1 >= n {
            assert(s.remove(0) =~= Seq::<CountedListener>::empty());
            assert(survivors_counted(s, all_fail, n) == survivors_counted(
                s.remove(0),
                all_fail.drop_last(),
                n,
            ));
            assert(survivors_counted(Seq::<CountedListener>::empty(), Seq::<bool>::empty(), n)
                == Seq::<CountedListener>::empty());
            lemma_failing_passes_empty(n, (k - 1) as nat);
        } else {
            let bumped = CountedListener { handle: h, failures: (c + 1) as u32 };
            assert(s.update(0, bumped) =~= seq![bumped]);
            assert(survivors_counted(s, all_fail, n) == survivors_counted(
                s.update(0, bumped),
                all_fail.drop_last(),
                n,
            ));
            lemma_eviction_after_exactly_threshold_failures(h, (c + 1) as u32, n, (k - 1) as nat);
        }
    }
}

/// An evicted listener stays evicted: passes over an empty registry leave it
/// empty.
pub proof fn lemma_failing_passes_empty(n: u32, k: nat)
    ensures
        failing_passes(Seq::<CountedListener>::empty(), n, k) == Seq::<CountedListener>::empty(),
    decreases k,
{
    if k > 0 {
        let empty = Seq::<CountedListener>::empty();
        assert(Seq::new(empty.len(), |i: int| false) =~= Seq::<bool>::empty());
        lemma_failing_passes_empty(n, (k - 1) as nat);
    }
}

/// A pass in which every delivery succeeded keeps every listener and wipes
/// every failure count; slots past the snapshot are untouched.
pub proof fn lemma_threshold_pass_all_healthy(s: Seq<CountedListener>, ok: Seq<bool>, n: u32)
    requires
        ok.len() <= s.len(),
        forall|i: int| 0 <= i < ok.len() ==> ok[i],
    ensures
        survivors_counted(s, ok, n).len() == s.len(),
        forall|i: int|
            0 <= i < ok.len() ==> survivors_counted(s, ok, n)[i] == (CountedListener {
                handle: s[i].handle,
                failures: 0,
            }),
        forall|i: int| ok.len() <= i < s.len() ==> survivors_counted(s, ok, n)[i] == s[i],
    decreases ok.len(),
{
    if ok.len() > 0 {
        let j = ok.len() - 1;
        let e = s[j];
        let reset = s.update(j, CountedListener { handle: e.handle, failures: 0 });
        lemma_threshold_pass_all_healthy(reset, ok.drop_last(), n);
    }
}

} // verus!
