//! A sliding-window rate limit: counts how many of the supplied timestamps are
//! still inside the window and compares that count against a cap. The window
//! owns no data of its own; it is a pure predicate over timestamps handed in.

use vstd::prelude::*;

verus! {

/// A time-bounded counting limit shared across all subjects. Timestamps and
/// `period` are in seconds; a timestamp is "in window" exactly when its age is
/// strictly less than `period`.
pub struct ThrottleWindow {
    pub period: u64,
    pub max_count: usize,
}

impl ThrottleWindow {
    /// A timestamp counts toward the limit iff it is strictly younger than
    /// `period` at time `now` (a timestamp aged exactly `period` is out).
    pub open spec fn spec_in_window(self, time: u64, now: u64) -> bool {
        now < time + self.period
    }

    /// How many of the given timestamps are in window at time `now`.
    pub open spec fn spec_count_in_window(self, times: Seq<u64>, now: u64) -> nat
        decreases times.len(),
    {
        if times.len() == 0 {
            0
        } else {
            self.spec_count_in_window(times.drop_last(), now) + if self.spec_in_window(
                times.last(),
                now,
            ) {
                1nat
            } else {
                0nat
            }
        }
    }

    /// The window admits a send exactly when the in-window count is strictly
    /// below `max_count`.
    pub open spec fn spec_can_send(self, times: Seq<u64>, now: u64) -> bool {
        self.spec_count_in_window(times, now) < self.max_count
    }

    pub fn in_window(&self, time: u64, now: u64) -> (r: bool)
        ensures
            r == self.spec_in_window(time, now),
    {
        if now < time {
            true
        } else {
            now - time < self.period
        }
    }

    pub fn can_send(&self, times: &Vec<u64>, now: u64) -> (r: bool)
        ensures
            r == self.spec_can_send(times@, now),
    {
        let mut count: usize = 0;
        let mut i: usize = 0;
        while i < times.len()
            invariant
                i <= times@.len(),
                count == self.spec_count_in_window(times@.take(i as int), now),
                count <= i,
            decreases times@.len() - i,
        {
            proof {
                assert(times@.take(i + 1).drop_last() =~= times@.take(i as int));
                assert(times@.take(i + 1).last() == times@[i as int]);
            }
            if self.in_window(times[i], now) {
                count = count + 1;
            }
            i = i + 1;
        }
        proof {
            assert(times@.take(times@.len() as int) =~= times@);
        }
        count < self.max_count
    }
}

/// An empty set of timestamps is always sendable (as long as the cap is not
/// zero, nothing has been counted against it).
pub proof fn lemma_empty_window_sendable(w: ThrottleWindow, now: u64)
    requires
        w.max_count > 0,
    ensures
        w.spec_can_send(Seq::<u64>::empty(), now),
{
}

/// Admission in both directions: with strictly fewer than `max_count`
/// timestamps in window the send is admitted; with `max_count` or more it is
/// refused. A timestamp aged exactly `period` (or more) does not count, one
/// aged strictly less does.
pub proof fn lemma_window_gate(w: ThrottleWindow, times: Seq<u64>, now: u64)
    ensures
        w.spec_count_in_window(times, now) < w.max_count ==> w.spec_can_send(times, now),
        w.spec_count_in_window(times, now) >= w.max_count ==> !w.spec_can_send(times, now),
        forall|t: u64| t <= now && now - t < w.period ==> w.spec_in_window(t, now),
        forall|t: u64| t <= now && now - t >= w.period ==> !w.spec_in_window(t, now),
{
}

} // verus!
