//! Replaying a session's or task's events to a new subscriber: first the
//! events recorded so far, then the live ones that come after them.

use vstd::prelude::*;

use crate::kernel::KernelEvent;

verus! {

/// The sequence number of the last recorded event, if any.
pub open spec fn last_seq(seqs: Seq<u64>) -> Option<u64> {
    if seqs.len() == 0 {
        None
    } else {
        Some(seqs.last())
    }
}

/// A live event is new when it comes after the last recorded one.
pub open spec fn is_new_after(last: Option<u64>, seq: u64) -> bool {
    match last {
        Some(l) => seq > l,
        None => true,
    }
}

/// The sequence numbers of a list of events.
pub open spec fn event_seqs(events: Seq<KernelEvent>) -> Seq<u64> {
    events.map_values(|e: KernelEvent| e.seq)
}

pub fn snapshot_last_seq(events: &[KernelEvent]) -> (r: Option<u64>)
    ensures
        r == last_seq(event_seqs(events@)),
{
    if events.len() == 0 {
        None
    } else {
        Some(events[events.len() - 1].seq)
    }
}

/// Whether a live event goes out to a subscriber whose replay ended at `last`.
pub fn is_new_live_event(last: Option<u64>, event: &KernelEvent) -> (r: bool)
    ensures
        r == is_new_after(last, event.seq),
{
    match last {
        Some(l) => event.seq > l,
        None => true,
    }
}

/// The live events a subscriber receives, in order.
pub open spec fn live_after(last: Option<u64>, live: Seq<u64>) -> Seq<u64>
    decreases live.len(),
{
    if live.len() == 0 {
        Seq::empty()
    } else {
        let r = live_after(last, live.drop_last());
        if is_new_after(last, live.last()) {
            r.push(live.last())
        } else {
            r
        }
    }
}

/// Each number is larger than the one before.
pub open spec fn strictly_increasing(s: Seq<u64>) -> bool {
    forall|i: int, j: int| 0 <= i < j < s.len() ==> s[i] < s[j]
}

proof fn lemma_live_after_bounds(last: Option<u64>, live: Seq<u64>)
    requires
        strictly_increasing(live),
    ensures
        strictly_increasing(live_after(last, live)),
        forall|k: int| 0 <= k < live_after(last, live).len() ==> is_new_after(last, #[trigger] live_after(last, live)[k]),
        forall|k: int|
            0 <= k < live_after(last, live).len() ==> exists|i: int|
                0 <= i < live.len() && live[i] == #[trigger] live_after(last, live)[k],
    decreases live.len(),
{
    if live.len() > 0 {
        let t = live.drop_last();
        assert(strictly_increasing(t)) by {
            assert forall|i: int, j: int| 0 <= i < j < t.len() implies t[i] < t[j] by {
                assert(t[i] == live[i] && t[j] == live[j]);
            }
        }
        lemma_live_after_bounds(last, t);
        let r = live_after(last, t);
        let out = live_after(last, live);
        assert forall|k: int| 0 <= k < out.len() implies exists|i: int|
            0 <= i < live.len() && live[i] == #[trigger] out[k] by {
            if k < r.len() {
                let i = choose|i: int| 0 <= i < t.len() && t[i] == r[k];
                assert(live[i] == t[i]);
                assert(out[k] == r[k]);
            } else {
                assert(live[live.len() - 1] == out[k]);
            }
        }
        if is_new_after(last, live.last()) {
            assert forall|a: int, b: int| 0 <= a < b < out.len() implies out[a] < out[b] by {
                if b == out.len() - 1 {
                    assert(out[a] == r[a]);
                    let i = choose|i: int| 0 <= i < t.len() && t[i] == r[a];
                    assert(live[i] == t[i]);
                } else {
                    assert(out[a] == r[a] && out[b] == r[b]);
                }
            }
        }
    }
}

/// A subscriber sees every event at most once and in order: when the
/// recorded events and the live ones are each in increasing order, the
/// recorded events followed by the live events kept after them are in
/// increasing order too.
pub proof fn lemma_replay_in_order_without_repeats(recorded: Seq<u64>, live: Seq<u64>)
    requires
        strictly_increasing(recorded),
        strictly_increasing(live),
    ensures
        strictly_increasing(recorded + live_after(last_seq(recorded), live)),
{
    let kept = live_after(last_seq(recorded), live);
    lemma_live_after_bounds(last_seq(recorded), live);
    let all = recorded + kept;
    assert forall|i: int, j: int| 0 <= i < j < all.len() implies all[i] < all[j] by {
        if j < recorded.len() {
        } else if i >= recorded.len() {
            assert(all[i] == kept[i - recorded.len()] && all[j] == kept[j - recorded.len()]);
        } else {
            assert(all[j] == kept[j - recorded.len()]);
            assert(is_new_after(last_seq(recorded), kept[j - recorded.len()]));
            if i < recorded.len() - 1 {
                assert(recorded[i] < recorded[recorded.len() - 1]);
            }
        }
    }
}

} // verus!
