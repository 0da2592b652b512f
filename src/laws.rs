use vstd::prelude::*;

use crate::dispatcher::{deliveries, receives, recipients, Target};
use crate::session::{next_idle, IDLE_TICK_LIMIT};

verus! {

/// The idle counter after `n` consecutive ticks that found no presence.
pub open spec fn idle_run(count: u32, n: nat) -> u32
    decreases n,
{
    if n == 0 {
        count
    } else {
        next_idle(idle_run(count, (n - 1) as nat), true)
    }
}

/// A tick that finds a presence resets the idle counter, whatever it was; from
/// there, `n` consecutive ticks without a presence leave it at `n`, so the
/// session ends on the tick that brings it to `IDLE_TICK_LIMIT` and on no
/// earlier one.
pub proof fn lemma_idle_timeout(count: u32, n: nat)
    requires
        n <= IDLE_TICK_LIMIT,
    ensures
        next_idle(count, false) == 0,
        idle_run(next_idle(count, false), n) == n,
        (idle_run(next_idle(count, false), n) < IDLE_TICK_LIMIT) <==> n < IDLE_TICK_LIMIT,
    decreases n,
{
    if n > 0 {
        lemma_idle_timeout(count, (n - 1) as nat);
    }
}

/// The deliveries of an entry addressed to `t` go to presences of `ids` only.
proof fn lemma_recipients_listed(t: Target, ids: Seq<usize>)
    ensures
        forall|x: usize| recipients(t, ids).contains(x) ==> ids.contains(x),
    decreases ids.len(),
{
    if ids.len() > 0 {
        lemma_recipients_listed(t, ids.drop_last());
        assert forall|x: usize| recipients(t, ids).contains(x) implies ids.contains(x) by {
            if recipients(t, ids.drop_last()).contains(x) {
                assert(ids.drop_last().contains(x));
                let k = choose|k: int| 0 <= k < ids.drop_last().len() && ids.drop_last()[k] == x;
                assert(ids[k] == x);
            } else {
                assert(ids[ids.len() - 1] == x);
            }
        }
    }
}

/// A presence that is not registered when a dispatcher is flushed gets nothing
/// from it, whatever the entries were addressed to: one that left after a
/// broadcast was recorded does not receive it.
pub proof fn lemma_flush_skips_absent(targets: Seq<Target>, ids: Seq<usize>, gone: usize)
    requires
        targets.len() <= usize::MAX,
        !ids.contains(gone),
    ensures
        forall|i: usize| !deliveries(targets, ids).contains((i, gone)),
    decreases targets.len(),
{
    if targets.len() > 0 {
        lemma_flush_skips_absent(targets.drop_last(), ids, gone);
        lemma_recipients_listed(targets.last(), ids);
        let last = (targets.len() - 1) as usize;
        let tail = recipients(targets.last(), ids).map_values(|id: usize| (last, id));
        assert forall|i: usize| !deliveries(targets, ids).contains((i, gone)) by {
            if deliveries(targets, ids).contains((i, gone)) {
                let head = deliveries(targets.drop_last(), ids);
                let k = choose|k: int| 0 <= k < (head + tail).len() && (head + tail)[k] == (i, gone);
                assert(deliveries(targets, ids) == head + tail);
                if k < head.len() {
                    assert(head[k] == (i, gone));
                    assert(head.contains((i, gone)));
                } else {
                    let r = recipients(targets.last(), ids);
                    assert(tail[k - head.len()] == (i, gone));
                    assert(r[k - head.len()] == gone);
                    assert(r.contains(gone));
                }
            }
        }
    }
}

/// A presence appended to the list after a broadcast entry was recorded, and
/// before the flush, still receives that entry.
pub proof fn lemma_flush_reaches_late_joiner(
    targets: Seq<Target>,
    ids: Seq<usize>,
    i: usize,
    newcomer: usize,
)
    requires
        targets.len() <= usize::MAX,
        0 <= i < targets.len(),
        targets[i as int] == (Target::All { exclude: None }),
    ensures
        deliveries(targets, ids.push(newcomer)).contains((i, newcomer)),
    decreases targets.len(),
{
    let joined = ids.push(newcomer);
    let last = (targets.len() - 1) as usize;
    let head = deliveries(targets.drop_last(), joined);
    let tail = recipients(targets.last(), joined).map_values(|id: usize| (last, id));
    if i == last {
        assert(joined.drop_last() =~= ids);
        assert(receives(targets.last(), newcomer));
        let r = recipients(targets.last(), joined);
        assert(r == recipients(targets.last(), ids).push(newcomer));
        assert(tail[r.len() - 1] == (i, newcomer));
        assert((head + tail)[head.len() + r.len() - 1] == (i, newcomer));
    } else {
        lemma_flush_reaches_late_joiner(targets.drop_last(), ids, i, newcomer);
        let k = choose|k: int| 0 <= k < head.len() && head[k] == (i, newcomer);
        assert((head + tail)[k] == (i, newcomer));
    }
}

} // verus!
