use vstd::prelude::*;

verus! {

/// Timestamps older than this many microseconds fall out of the window.
pub const WINDOW_MICROS: u64 = 1000000;

/// The oldest timestamp still inside the window ending at `now`.
pub open spec fn window_start(now: u64) -> u64 {
    if now >= WINDOW_MICROS {
        (now - WINDOW_MICROS) as u64
    } else {
        0u64
    }
}

/// How many leading timestamps fall before the cutoff.
pub open spec fn drop_count(s: Seq<u64>, cutoff: u64) -> int
    decreases s.len(),
{
    if s.len() > 0 && s[0] < cutoff {
        1 + drop_count(s.skip(1), cutoff)
    } else {
        0
    }
}

/// A throughput counter: it keeps the timestamps of the frames seen in
/// the last second and reports how many there are.
pub struct Tickrate {
    frame_times: Vec<u64>,
}

impl View for Tickrate {
    type V = Seq<u64>;

    closed spec fn view(&self) -> Seq<u64> {
        self.frame_times@
    }
}

impl Tickrate {
    /// An empty counter.
    pub fn new() -> (s: Self)
        ensures
            s@ == Seq::<u64>::empty(),
    {
        let s = Tickrate { frame_times: Vec::with_capacity(128) };
        proof {
            assert(s@ =~= Seq::<u64>::empty());
        }
        s
    }

    /// Record a frame at time `now` (in microseconds) and report the
    /// number of frames recorded in the second ending at `now`: every
    /// leading timestamp older than the window is dropped, then `now` is
    /// appended.
    pub fn tick(&mut self, now: u64) -> (r: usize)
        ensures
            final(self)@ == old(self)@.skip(drop_count(old(self)@, window_start(now))).push(now),
            r == final(self)@.len(),
    {
        let cutoff: u64 = if now >= WINDOW_MICROS {
            now - WINDOW_MICROS
        } else {
            0
        };
        let ghost orig = self@;
        let ghost mut dropped: int = 0;
        while self.frame_times.len() > 0 && self.frame_times[0] < cutoff
            invariant
                cutoff == window_start(now),
                0 <= dropped <= orig.len(),
                self@ == orig.skip(dropped),
                drop_count(orig, cutoff) == dropped + drop_count(self@, cutoff),
            decreases self.frame_times@.len(),
        {
            let ghost pre = self@;
            self.frame_times.remove(0);
            proof {
                dropped = dropped + 1;
                assert(self@ =~= pre.skip(1));
                assert(pre.skip(1) =~= orig.skip(dropped));
            }
        }
        proof {
            assert(drop_count(orig, cutoff) == dropped);
        }
        self.frame_times.push(now);
        self.frame_times.len()
    }
}

} // verus!
