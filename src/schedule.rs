use vstd::prelude::*;
use crate::glyph::{frame_to_glyphs, glyph_grid, GlyphFrame};
use crate::palette::Palette;
use crate::raster::decoded_rgb;

verus! {

/// The offset from the clock origin before which frame `i` is not shown.
pub open spec fn target_offset(i: int, interval: int) -> int {
    i * interval
}

/// What the presentation loop does next.
#[derive(Debug, Clone, Copy, PartialEq, Eq, Structural)]
pub enum Action {
    /// Sleep this many milliseconds, then ask again.
    Wait(u64),
    /// Convert and show the frame at this index, then record the outcome.
    Present(usize),
    /// Every frame has been dispatched.
    Finished,
}

/// Paces a fixed number of frames against a clock origin: frame `i` is
/// released no earlier than `i * interval_ms` after the origin. A late frame
/// is still shown; no frame is skipped to catch up.
#[derive(Debug)]
pub struct Scheduler {
    pub interval_ms: u64,
    pub frame_count: usize,
    pub next: usize,
    pub displayed: usize,
    pub dropped: usize,
}

/// The decision for a scheduler in the given state at `elapsed` milliseconds
/// after the origin.
pub open spec fn action_for(s: Scheduler, elapsed: int) -> Action {
    if s.next >= s.frame_count {
        Action::Finished
    } else if target_offset(s.next as int, s.interval_ms as int) > elapsed {
        Action::Wait((target_offset(s.next as int, s.interval_ms as int) - elapsed) as u64)
    } else {
        Action::Present(s.next)
    }
}

impl Scheduler {
    pub open spec fn wf(&self) -> bool {
        &&& self.next <= self.frame_count
        &&& self.displayed + self.dropped == self.next
        &&& self.frame_count * self.interval_ms <= u64::MAX
    }

    /// A scheduler for `frame_count` frames spaced `interval_ms` apart.
    pub fn new(frame_count: usize, interval_ms: u64) -> (s: Scheduler)
        requires
            frame_count * interval_ms <= u64::MAX,
        ensures
            s.wf(),
            s.frame_count == frame_count,
            s.interval_ms == interval_ms,
            s.next == 0,
            s.displayed == 0,
            s.dropped == 0,
    {
        Scheduler { interval_ms, frame_count, next: 0, displayed: 0, dropped: 0 }
    }

    /// A scheduler, or `None` when the last target offset would not fit in
    /// 64 bits of milliseconds.
    pub fn checked_new(frame_count: usize, interval_ms: u64) -> (r: Option<Scheduler>)
        ensures
            r is Some <==> frame_count * interval_ms <= u64::MAX,
            r matches Some(s) ==> s.wf() && s.frame_count == frame_count && s.interval_ms
                == interval_ms && s.next == 0 && s.displayed == 0 && s.dropped == 0,
    {
        match (frame_count as u64).checked_mul(interval_ms) {
            Some(_) => Some(Scheduler::new(frame_count, interval_ms)),
            None => None,
        }
    }

    /// The target offset of frame `i`, in milliseconds after the origin.
    pub fn target_offset_ms(&self, i: usize) -> (t: u64)
        requires
            self.wf(),
            i <= self.frame_count,
        ensures
            t == target_offset(i as int, self.interval_ms as int),
    {
        proof {
            lemma_target_fits(i as int, self.frame_count as int, self.interval_ms as int);
        }
        (i as u64) * self.interval_ms
    }

    /// Decides what to do `elapsed_ms` after the origin: wait out the rest of
    /// the next frame's target offset, present it, or finish. A frame is
    /// never presented before its target offset.
    pub fn next_action(&self, elapsed_ms: u64) -> (a: Action)
        requires
            self.wf(),
        ensures
            a == action_for(*self, elapsed_ms as int),
            a matches Action::Present(i) ==> i == self.next && elapsed_ms >= target_offset(
                i as int,
                self.interval_ms as int,
            ),
            a matches Action::Wait(d) ==> d > 0 && elapsed_ms + d <= u64::MAX && elapsed_ms + d == target_offset(
                self.next as int,
                self.interval_ms as int,
            ),
    {
        if self.next >= self.frame_count {
            Action::Finished
        } else {
            let target = self.target_offset_ms(self.next);
            if target > elapsed_ms {
                Action::Wait(target - elapsed_ms)
            } else {
                Action::Present(self.next)
            }
        }
    }

    /// Records the outcome of the presented frame and moves to the next one.
    pub fn record(&mut self, shown: bool)
        requires
            old(self).wf(),
            old(self).next < old(self).frame_count,
        ensures
            final(self).wf(),
            final(self).interval_ms == old(self).interval_ms,
            final(self).frame_count == old(self).frame_count,
            final(self).next == old(self).next + 1,
            final(self).displayed == old(self).displayed + if shown { 1int } else { 0int },
            final(self).dropped == old(self).dropped + if shown { 0int } else { 1int },
    {
        if shown {
            self.displayed = self.displayed + 1;
        } else {
            self.dropped = self.dropped + 1;
        }
        self.next = self.next + 1;
    }

    pub fn is_finished(&self) -> (r: bool)
        ensures
            r == (self.next >= self.frame_count),
    {
        self.next >= self.frame_count
    }
}

proof fn lemma_target_fits(i: int, n: int, interval: int)
    requires
        0 <= i <= n,
        0 <= interval,
        n * interval <= u64::MAX,
    ensures
        0 <= i * interval <= u64::MAX,
{
    assert(0 <= i * interval <= n * interval) by (nonlinear_arith)
        requires
            0 <= i <= n,
            0 <= interval,
    ;
}

/// A frame shown during a simulated playback: its index, the simulated
/// instant (milliseconds after the origin) at which it was released, and
/// its glyphs.
#[derive(Debug)]
pub struct Presentation {
    pub index: usize,
    pub at_ms: u64,
    pub glyphs: GlyphFrame,
}

pub open spec fn presentation_view(p: Presentation) -> (int, int, Seq<Seq<char>>) {
    (p.index as int, p.at_ms as int, p.glyphs@)
}

/// The simulated clock once the first `n` frames have been handled. Each
/// frame is released at the later of the clock and its target offset, and
/// handling it then costs `costs[i]` milliseconds (the clock stops at
/// `u64::MAX`).
pub open spec fn sim_clock(interval: int, costs: Seq<u64>, n: nat) -> int
    decreases n, 0nat,
{
    if n == 0 {
        0
    } else {
        let rel = release_time(interval, costs, (n - 1) as nat);
        if rel + costs[n - 1] > u64::MAX {
            u64::MAX as int
        } else {
            rel + costs[n - 1]
        }
    }
}

/// The simulated instant at which frame `i` is released.
pub open spec fn release_time(interval: int, costs: Seq<u64>, i: nat) -> int
    decreases i, 1nat,
{
    let c = sim_clock(interval, costs, i);
    let t = target_offset(i as int, interval);
    if c >= t {
        c
    } else {
        t
    }
}

/// What a simulated playback of the first `n` encoded frames shows: one
/// entry per frame that decodes, in index order; a frame that does not
/// decode is skipped.
pub open spec fn playback_log(
    frames: Seq<Seq<u8>>,
    p: Seq<char>,
    interval: int,
    costs: Seq<u64>,
    n: nat,
) -> Seq<(int, int, Seq<Seq<char>>)>
    decreases n,
{
    if n == 0 {
        Seq::empty()
    } else {
        let prev = playback_log(frames, p, interval, costs, (n - 1) as nat);
        match decoded_rgb(frames[n - 1]) {
            Some((w, h, rgb)) => prev.push(
                (
                    n - 1,
                    release_time(interval, costs, (n - 1) as nat),
                    glyph_grid(w as int, h as int, rgb, p),
                ),
            ),
            None => prev,
        }
    }
}

/// How many of the first `n` encoded frames do not decode.
pub open spec fn corrupt_count(frames: Seq<Seq<u8>>, n: nat) -> nat
    decreases n,
{
    if n == 0 {
        0
    } else {
        corrupt_count(frames, (n - 1) as nat) + if decoded_rgb(frames[n - 1]) is None {
            1nat
        } else {
            0nat
        }
    }
}

/// No frame is released before its target offset, and the entries come in
/// strictly increasing index order, below `n`.
pub proof fn lemma_log_respects_targets(
    frames: Seq<Seq<u8>>,
    p: Seq<char>,
    interval: int,
    costs: Seq<u64>,
    n: nat,
)
    requires
        n <= frames.len(),
        n <= costs.len(),
    ensures
        forall|k: int|
            0 <= k < playback_log(frames, p, interval, costs, n).len() ==> {
                let e = #[trigger] playback_log(frames, p, interval, costs, n)[k];
                &&& e.1 >= target_offset(e.0, interval)
                &&& 0 <= e.0 < n
            },
        forall|k: int, l: int|
            0 <= k < l < playback_log(frames, p, interval, costs, n).len() ==> (#[trigger] playback_log(
                frames,
                p,
                interval,
                costs,
                n,
            )[k]).0 < (#[trigger] playback_log(frames, p, interval, costs, n)[l]).0,
    decreases n,
{
    if n > 0 {
        lemma_log_respects_targets(frames, p, interval, costs, (n - 1) as nat);
        let prev = playback_log(frames, p, interval, costs, (n - 1) as nat);
        let cur = playback_log(frames, p, interval, costs, n);
        assert forall|k: int| 0 <= k < cur.len() implies {
            let e = #[trigger] cur[k];
            &&& e.1 >= target_offset(e.0, interval)
            &&& 0 <= e.0 < n
        } by {
            if k < prev.len() {
                assert(cur[k] == prev[k]);
            }
        }
        assert forall|k: int, l: int| 0 <= k < l < cur.len() implies (#[trigger] cur[k]).0 < (
        #[trigger] cur[l]).0 by {
            assert(cur[k] == prev[k]);
            if l < prev.len() {
                assert(cur[l] == prev[l]);
            }
        }
    }
}

/// Every frame that does not decode is dropped and every other frame is
/// shown: the log holds `n` minus the number of corrupt frames.
pub proof fn lemma_log_counts_dropped_frames(
    frames: Seq<Seq<u8>>,
    p: Seq<char>,
    interval: int,
    costs: Seq<u64>,
    n: nat,
)
    ensures
        playback_log(frames, p, interval, costs, n).len() + corrupt_count(frames, n) == n,
    decreases n,
{
    if n > 0 {
        lemma_log_counts_dropped_frames(frames, p, interval, costs, (n - 1) as nat);
    }
}

/// Replaying the same frames with the same costs and the same interval from
/// the same origin shows the same glyph frames at the same instants, in the
/// same order.
pub proof fn lemma_replay_is_identical(
    frames: Seq<Seq<u8>>,
    p: Seq<char>,
    interval: int,
    costs: Seq<u64>,
    first: Seq<(int, int, Seq<Seq<char>>)>,
    second: Seq<(int, int, Seq<Seq<char>>)>,
)
    requires
        first == playback_log(frames, p, interval, costs, frames.len()),
        second == playback_log(frames, p, interval, costs, frames.len()),
    ensures
        first == second,
{
}

/// Plays encoded frames against a simulated clock that starts at the origin
/// and advances only by the scheduler's waits and by `costs[i]` after frame
/// `i` is handled. Frames that do not decode are skipped.
pub fn simulate_playback(
    frames: &Vec<Vec<u8>>,
    palette: &Palette,
    interval_ms: u64,
    costs: &Vec<u64>,
) -> (log: Vec<Presentation>)
    requires
        palette.wf(),
        costs@.len() == frames@.len(),
        frames@.len() * interval_ms <= u64::MAX,
    ensures
        log@.map_values(|e: Presentation| presentation_view(e)) == playback_log(
            frames@.map_values(|v: Vec<u8>| v@),
            palette@,
            interval_ms as int,
            costs@,
            frames@.len(),
        ),
        forall|k: int|
            0 <= k < log@.len() ==> (#[trigger] log@[k]).at_ms >= target_offset(
                log@[k].index as int,
                interval_ms as int,
            ),
        log@.len() == frames@.len() - corrupt_count(
            frames@.map_values(|v: Vec<u8>| v@),
            frames@.len(),
        ),
{
    let ghost vw = |v: Vec<u8>| v@;
    let ghost pv = |e: Presentation| presentation_view(e);
    let ghost fs = frames@.map_values(vw);
    let mut sched = Scheduler::new(frames.len(), interval_ms);
    let mut clock: u64 = 0;
    let mut log: Vec<Presentation> = Vec::new();
    assert(log@.map_values(pv) =~= playback_log(fs, palette@, interval_ms as int, costs@, 0));
    while !sched.is_finished()
        invariant
            palette.wf(),
            costs@.len() == frames@.len(),
            vw == (|v: Vec<u8>| v@),
            pv == (|e: Presentation| presentation_view(e)),
            fs == frames@.map_values(vw),
            sched.wf(),
            sched.frame_count == frames@.len(),
            sched.interval_ms == interval_ms,
            clock == sim_clock(interval_ms as int, costs@, sched.next as nat),
            log@.map_values(pv) == playback_log(fs, palette@, interval_ms as int, costs@, sched.next as nat),
        decreases frames@.len() - sched.next,
    {
        let ghost i0 = sched.next;
        let mut act = sched.next_action(clock);
        if let Action::Wait(d) = act {
            clock = clock + d;
            act = sched.next_action(clock);
        }
        assert(clock == release_time(interval_ms as int, costs@, i0 as nat));
        match act {
            Action::Present(i) => {
                let at = clock;
                let ghost prev_log = log@;
                match frame_to_glyphs(frames[i].as_slice(), palette) {
                    Ok(glyphs) => {
                        log.push(Presentation { index: i, at_ms: at, glyphs });
                        sched.record(true);
                        assert(log@.map_values(pv) =~= prev_log.map_values(pv).push(
                            presentation_view(log@.last()),
                        ));
                    },
                    Err(_) => {
                        sched.record(false);
                    },
                }
                assert(fs[i as int] == frames@[i as int]@);
                clock = clock.saturating_add(costs[i]);
            },
            _ => {
                assert(false);
            },
        }
    }
    proof {
        lemma_log_respects_targets(fs, palette@, interval_ms as int, costs@, frames@.len());
        lemma_log_counts_dropped_frames(fs, palette@, interval_ms as int, costs@, frames@.len());
        assert forall|k: int| 0 <= k < log@.len() implies (#[trigger] log@[k]).at_ms >= target_offset(
            log@[k].index as int,
            interval_ms as int,
        ) by {
            assert(log@.map_values(pv)[k] == presentation_view(log@[k]));
        }
    }
    log
}

} // verus!
