//! The pacing model: each displayed frame owns a fixed wall-clock interval,
//! and the decode-and-render work of a cycle is absorbed into that interval
//! rather than added to it. A cycle whose work runs past the interval is
//! never cut short and never skipped; playback simply falls behind.

use vstd::prelude::*;

verus! {

/// Target wall-clock interval between the starts of successive frame
/// cycles, in milliseconds: 25 frames per second.
pub const FRAME_INTERVAL_MS: u64 = 40;

/// How long a cycle must still wait once its work is done: the unused
/// remainder of the interval, and zero when the work already ran past it
/// (a wait is never negative).
pub open spec fn spec_cycle_wait(work_ms: nat, interval_ms: nat) -> nat {
    if work_ms >= interval_ms {
        0
    } else {
        (interval_ms - work_ms) as nat
    }
}

/// Total wall-clock length of one cycle whose decode-and-render work took
/// `work_ms`: the full interval when the work fit inside it, the work
/// itself when it ran over.
pub open spec fn spec_cycle_duration(work_ms: nat, interval_ms: nat) -> nat {
    if work_ms >= interval_ms {
        work_ms
    } else {
        interval_ms
    }
}

/// Waiting out `spec_cycle_wait` after the work makes the cycle last
/// exactly `spec_cycle_duration`: the interval overlaps the work instead
/// of following it, and an overlong cycle adds no wait at all.
pub proof fn lemma_wait_completes_cycle(work_ms: nat, interval_ms: nat)
    ensures
        work_ms + spec_cycle_wait(work_ms, interval_ms) == spec_cycle_duration(
            work_ms,
            interval_ms,
        ),
{
}

/// How many milliseconds the current cycle must still wait before the next
/// cycle may start, given that its decode-and-render work took `work_ms`
/// of the `interval_ms` it owns. Returns zero, waiting not at all, when
/// the work already exceeded the interval.
pub fn cycle_wait(work_ms: u64, interval_ms: u64) -> (wait: u64)
    ensures
        wait == spec_cycle_wait(work_ms as nat, interval_ms as nat),
        work_ms + wait == spec_cycle_duration(work_ms as nat, interval_ms as nat),
{
    if work_ms >= interval_ms {
        0
    } else {
        interval_ms - work_ms
    }
}

/// Total wall-clock time of consecutive paced cycles whose work times are
/// `work_ms`, each cycle lasting its `spec_cycle_duration`.
pub open spec fn spec_total_elapsed(work_ms: Seq<nat>, interval_ms: nat) -> nat
    decreases work_ms.len(),
{
    if work_ms.len() == 0 {
        0
    } else {
        spec_cycle_duration(work_ms[0], interval_ms) + spec_total_elapsed(
            work_ms.drop_first(),
            interval_ms,
        )
    }
}

/// One more cycle adds exactly its own duration to the total.
pub proof fn lemma_total_elapsed_push(work_ms: Seq<nat>, work: nat, interval_ms: nat)
    ensures
        spec_total_elapsed(work_ms.push(work), interval_ms) == spec_total_elapsed(
            work_ms,
            interval_ms,
        ) + spec_cycle_duration(work, interval_ms),
    decreases work_ms.len(),
{
    if work_ms.len() == 0 {
        assert(work_ms.push(work).drop_first() =~= work_ms);
    } else {
        assert(work_ms.push(work).drop_first() =~= work_ms.drop_first().push(work));
        lemma_total_elapsed_push(work_ms.drop_first(), work, interval_ms);
    }
}

/// Dropping trailing cycles never lengthens the total.
pub proof fn lemma_total_elapsed_prefix(work_ms: Seq<nat>, interval_ms: nat, i: int)
    requires
        0 <= i <= work_ms.len(),
    ensures
        spec_total_elapsed(work_ms.take(i), interval_ms) <= spec_total_elapsed(
            work_ms,
            interval_ms,
        ),
    decreases work_ms.len() - i,
{
    if i == work_ms.len() {
        assert(work_ms.take(i) =~= work_ms);
    } else {
        assert(work_ms.take(i + 1) =~= work_ms.take(i).push(work_ms[i]));
        lemma_total_elapsed_push(work_ms.take(i), work_ms[i], interval_ms);
        lemma_total_elapsed_prefix(work_ms, interval_ms, i + 1);
    }
}

/// When every cycle's work takes the same `work` milliseconds, the total
/// elapsed time is the cycle count times one cycle's duration: with work
/// inside the interval the total is count times the interval, no more and
/// no less, and with work beyond the interval it is count times the work,
/// with no catching up.
pub proof fn lemma_uniform_cycles_elapsed(work_ms: Seq<nat>, work: nat, interval_ms: nat)
    requires
        forall|i: int| 0 <= i < work_ms.len() ==> work_ms[i] == work,
    ensures
        spec_total_elapsed(work_ms, interval_ms) == work_ms.len() * spec_cycle_duration(
            work,
            interval_ms,
        ),
    decreases work_ms.len(),
{
    if work_ms.len() == 0 {
    } else {
        lemma_uniform_cycles_elapsed(work_ms.drop_first(), work, interval_ms);
        let d = spec_cycle_duration(work, interval_ms);
        assert((work_ms.len() - 1) * d + d == work_ms.len() * d) by (nonlinear_arith);
    }
}

/// Total wall-clock milliseconds that paced playback of cycles with the
/// given work times spends, or `None` when that total does not fit in a
/// `u64`.
pub fn paced_total_ms(work_ms: &Vec<u64>, interval_ms: u64) -> (total: Option<u64>)
    ensures
        match total {
            Some(t) => t == spec_total_elapsed(
                work_ms@.map_values(|w: u64| w as nat),
                interval_ms as nat,
            ),
            None => spec_total_elapsed(work_ms@.map_values(|w: u64| w as nat), interval_ms as nat)
                > u64::MAX,
        },
{
    let ghost works = work_ms@.map_values(|w: u64| w as nat);
    let mut acc: u64 = 0;
    let mut i: usize = 0;
    while i < work_ms.len()
        invariant
            i <= work_ms@.len(),
            works == work_ms@.map_values(|w: u64| w as nat),
            acc == spec_total_elapsed(works.take(i as int), interval_ms as nat),
        decreases work_ms@.len() - i,
    {
        let work: u64 = work_ms[i];
        let duration: u64 = if work >= interval_ms {
            work
        } else {
            interval_ms
        };
        proof {
            assert(works.take(i + 1) =~= works.take(i as int).push(works[i as int]));
            lemma_total_elapsed_push(works.take(i as int), works[i as int], interval_ms as nat);
        }
        if acc > u64::MAX - duration {
            proof {
                lemma_total_elapsed_prefix(works, interval_ms as nat, i + 1);
            }
            return None;
        }
        acc = acc + duration;
        i = i + 1;
    }
    proof {
        assert(works.take(i as int) =~= works);
    }
    Some(acc)
}

} // verus!
