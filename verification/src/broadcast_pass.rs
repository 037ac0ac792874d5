//! Bookkeeping of one broadcast pass.
//!
//! A pass snapshots the registry, delivers one notification to every slot of
//! the snapshot (outside the registry lock), records which deliveries failed,
//! and finally removes exactly the failed slots, in descending index order.
//! The eviction policy is immediate eviction: a listener whose delivery
//! failed in a pass is removed at the end of that same pass. Slots appended
//! while the pass was in flight lie past the snapshot and are never removed
//! by the pass.

use vstd::prelude::*;
use crate::registry::ListenerRegistry;
use crate::registry::remove_indices_spec;
use crate::registry::strictly_descending_below;

verus! {

/// The fixed text every pass delivers to every listener.
pub open spec fn notification_message() -> Seq<char> {
    "Periodic notification from the server"@
}

/// The fixed notification payload of a broadcast pass.
pub fn notification_text() -> (s: &'static str)
    ensures
        s@ == notification_message(),
{
    "Periodic notification from the server"
}

/// The registry contents after one pass over a snapshot of length
/// `ok.len()`: `ok[i]` says whether delivery to slot `i` succeeded. Failed
/// slots of the snapshot are dropped; healthy slots, and every slot past the
/// snapshot, survive with their relative order kept.
pub open spec fn survivors(s: Seq<u64>, ok: Seq<bool>) -> Seq<u64>
    decreases ok.len(),
{
    if ok.len() == 0 || ok.len() > s.len() {
        s
    } else {
        let j = ok.len() - 1;
        if ok[j] {
            survivors(s, ok.drop_last())
        } else {
            survivors(s.remove(j), ok.drop_last())
        }
    }
}

/// The number of successful deliveries recorded in `ok`.
pub open spec fn count_ok(ok: Seq<bool>) -> int
    decreases ok.len(),
{
    if ok.len() == 0 {
        0
    } else {
        count_ok(ok.drop_last()) + if ok[ok.len() - 1] {
            1int
        } else {
            0int
        }
    }
}

/// The indices whose delivery failed, strictly descending (largest first):
/// the order in which the pass removes them.
pub open spec fn failed_desc(ok: Seq<bool>) -> Seq<usize>
    decreases ok.len(),
{
    if ok.len() == 0 {
        Seq::<usize>::empty()
    } else {
        let j = ok.len() - 1;
        if ok[j] {
            failed_desc(ok.drop_last())
        } else {
            seq![(ok.len() - 1) as usize] + failed_desc(ok.drop_last())
        }
    }
}

/// The failed indices are strictly descending and all lie below `ok.len()`.
pub proof fn lemma_failed_desc_bounds(ok: Seq<bool>)
    requires
        ok.len() <= usize::MAX,
    ensures
        strictly_descending_below(failed_desc(ok), ok.len()),
    decreases ok.len(),
{
    if ok.len() > 0 {
        lemma_failed_desc_bounds(ok.drop_last());
        let j = ok.len() - 1;
        if !ok[j] {
            let rest = failed_desc(ok.drop_last());
            let all = failed_desc(ok);
            assert(all[0] == j as usize);
            assert(forall|i: int| 1 <= i < all.len() ==> all[i] == rest[i - 1]);
        }
    }
}

/// Removing the failed indices in descending order yields exactly the pass's
/// survivors.
pub proof fn lemma_remove_failed_is_survivors(s: Seq<u64>, ok: Seq<bool>)
    requires
        ok.len() <= s.len(),
        ok.len() <= usize::MAX,
    ensures
        remove_indices_spec(s, failed_desc(ok)) == survivors(s, ok),
    decreases ok.len(),
{
    if ok.len() == 0 {
    } else {
        let j = ok.len() - 1;
        if ok[j] {
            lemma_remove_failed_is_survivors(s, ok.drop_last());
        } else {
            let rest = failed_desc(ok.drop_last());
            let all = failed_desc(ok);
            assert(all == seq![j as usize] + rest);
            assert(all.subrange(1, all.len() as int) =~= rest);
            assert(all[0] == j as usize);
            lemma_remove_failed_is_survivors(s.remove(j), ok.drop_last());
        }
    }
}

/// Collects the failed indices of `ok`, largest first.
pub fn failed_indices_desc(ok: &Vec<bool>) -> (r: Vec<usize>)
    ensures
        r@ == failed_desc(ok@),
{
    let mut r: Vec<usize> = Vec::new();
    let mut j: usize = ok.len();
    proof {
        assert(ok@.take(ok@.len() as int) =~= ok@);
    }
    while j > 0
        invariant
            j <= ok@.len(),
            r@ + failed_desc(ok@.take(j as int)) == failed_desc(ok@),
        decreases j,
    {
        j = j - 1;
        proof {
            assert(ok@.take(j + 1).drop_last() =~= ok@.take(j as int));
            assert(ok@.take(j + 1)[j as int] == ok@[j as int]);
        }
        if !ok[j] {
            r.push(j);
            proof {
                assert(r@ + failed_desc(ok@.take(j as int)) =~= failed_desc(ok@));
            }
        }
    }
    proof {
        assert(failed_desc(ok@.take(0)) =~= Seq::<usize>::empty());
        assert(r@ =~= failed_desc(ok@));
    }
    r
}

/// Ends a broadcast pass: given the per-slot delivery outcomes for a
/// snapshot prefix of the registry, removes exactly the failed slots
/// (descending), leaving the pass's survivors.
pub fn finish_pass(reg: &mut ListenerRegistry, ok: &Vec<bool>)
    requires
        ok@.len() <= old(reg)@.len(),
    ensures
        final(reg)@ == survivors(old(reg)@, ok@),
{
    let n = ok.len();
    let idx = failed_indices_desc(ok);
    proof {
        assert(ok@.len() == n);
        lemma_failed_desc_bounds(ok@);
        assert(strictly_descending_below(idx@, reg@.len()));
        lemma_remove_failed_is_survivors(reg@, ok@);
    }
    reg.remove_indices_desc(&idx);
}

/// A pass over a snapshot of `k` listeners in which every delivery
/// succeeded yields `k` successes and removes nothing: the registry keeps
/// all its entries, in order.
pub proof fn lemma_pass_all_healthy(s: Seq<u64>, ok: Seq<bool>)
    requires
        ok.len() <= s.len(),
        forall|i: int| 0 <= i < ok.len() ==> ok[i],
    ensures
        survivors(s, ok) == s,
        count_ok(ok) == ok.len(),
    decreases ok.len(),
{
    if ok.len() > 0 {
        lemma_pass_all_healthy(s, ok.drop_last());
    }
}

/// A pass keeps exactly the healthy snapshot slots plus everything past the
/// snapshot: the survivor count is the success count plus the entries the
/// snapshot did not cover.
pub proof fn lemma_survivors_len(s: Seq<u64>, ok: Seq<bool>)
    requires
        ok.len() <= s.len(),
    ensures
        survivors(s, ok).len() == s.len() - ok.len() + count_ok(ok),
    decreases ok.len(),
{
    if ok.len() > 0 {
        let j = ok.len() - 1;
        if ok[j] {
            lemma_survivors_len(s, ok.drop_last());
        } else {
            lemma_survivors_len(s.remove(j), ok.drop_last());
        }
    }
}

/// Immediate eviction: a slot whose delivery failed is removed by the very
/// pass that observed the failure, and the pass treats the other slots as if
/// the failed one were absent.
pub proof fn lemma_failed_slot_evicted(s: Seq<u64>, ok: Seq<bool>, i: int)
    requires
        ok.len() <= s.len(),
        0 <= i < ok.len(),
        !ok[i],
    ensures
        survivors(s, ok) == survivors(s.remove(i), ok.remove(i)),
    decreases ok.len(),
{
    let j = ok.len() - 1;
    if i == j {
        assert(ok.remove(i) =~= ok.drop_last());
    } else {
        assert(ok.remove(i).len() == ok.len() - 1);
        assert(ok.remove(i)[ok.len() - 2] == ok[j]);
        assert(ok.remove(i).drop_last() =~= ok.drop_last().remove(i));
        if ok[j] {
            lemma_failed_slot_evicted(s, ok.drop_last(), i);
        } else {
            assert(s.remove(i).remove(j - 1) =~= s.remove(j).remove(i));
            lemma_failed_slot_evicted(s.remove(j), ok.drop_last(), i);
        }
    }
}

/// A registration that lands while a pass is in flight is never lost: it
/// stands past the snapshot, so the pass's outcome is the same registry with
/// the new handle still appended at the end.
pub proof fn lemma_register_during_pass(s: Seq<u64>, ok: Seq<bool>, h: u64)
    requires
        ok.len() <= s.len(),
    ensures
        survivors(s.push(h), ok) == survivors(s, ok).push(h),
    decreases ok.len(),
{
    if ok.len() > 0 {
        let j = ok.len() - 1;
        if ok[j] {
            lemma_register_during_pass(s, ok.drop_last(), h);
        } else {
            assert(s.push(h).remove(j) =~= s.remove(j).push(h));
            lemma_register_during_pass(s.remove(j), ok.drop_last(), h);
        }
    }
}

} // verus!
