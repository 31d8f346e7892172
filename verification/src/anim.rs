//! Frame-by-frame sprite animations: which frame to show next.
use vstd::prelude::*;

verus! {

/// Frame after `current` in a looping cycle of `len` frames.
pub fn cycle_next(current: usize, len: usize) -> (next: usize)
    requires
        len > 0,
        current < len,
    ensures
        next == (current + 1) % (len as int),
        next < len,
{
    (current + 1) % len
}

/// Playback state of an animation: current frame, whether it stops on its
/// last frame instead of looping, and whether it has stopped.
#[derive(Clone, Copy, Debug, PartialEq, Eq)]
pub struct FramePlayback {
    pub current_frame: usize,
    pub one_shot: bool,
    pub completed: bool,
}

/// One firing of the frame timer on an animation of `frame_count` frames:
/// the next playback state and the frame shown, if any.
pub open spec fn playback_step(p: FramePlayback, frame_count: usize) -> (FramePlayback, Option<usize>) {
    if p.completed {
        (p, None)
    } else if p.current_frame + 1 >= frame_count {
        if p.one_shot {
            (FramePlayback { completed: true, ..p }, None)
        } else {
            (FramePlayback { current_frame: 0, ..p }, Some(0))
        }
    } else {
        let f = (p.current_frame + 1) as usize;
        (FramePlayback { current_frame: f, ..p }, Some(f))
    }
}

/// The playback state after `k` firings of the frame timer.
pub open spec fn playback_after(p: FramePlayback, frame_count: usize, k: nat) -> FramePlayback
    decreases k,
{
    if k == 0 {
        p
    } else {
        playback_step(playback_after(p, frame_count, (k - 1) as nat), frame_count).0
    }
}

/// A looping animation cycles through its frames forever: after `k` more
/// frames it shows frame `(current + k) mod frame_count` and never stops.
pub proof fn lemma_looping_cycles(p: FramePlayback, frame_count: usize, k: nat)
    requires
        !p.one_shot,
        !p.completed,
        p.current_frame < frame_count,
    ensures
        playback_after(p, frame_count, k).current_frame == (p.current_frame + k) % (frame_count as int),
        !playback_after(p, frame_count, k).completed,
        !playback_after(p, frame_count, k).one_shot,
    decreases k,
{
    if k > 0 {
        lemma_looping_cycles(p, frame_count, (k - 1) as nat);
        let n = frame_count as int;
        let q = playback_after(p, frame_count, (k - 1) as nat);
        let a = p.current_frame + k - 1;
        assert(q.current_frame == a % n);
        let d = a / n;
        vstd::arithmetic::div_mod::lemma_fundamental_div_mod(a, n);
        assert(d * n == n * d) by (nonlinear_arith);
        assert((d + 1) * n == d * n + n) by (nonlinear_arith);
        assert(playback_after(p, frame_count, k) == playback_step(q, frame_count).0);
        if q.current_frame + 1 < n {
            vstd::arithmetic::div_mod::lemma_fundamental_div_mod_converse_mod(a + 1, n, d, q.current_frame + 1);
            assert(playback_step(q, frame_count).0.current_frame == q.current_frame + 1);
        } else {
            vstd::arithmetic::div_mod::lemma_fundamental_div_mod_converse_mod(a + 1, n, d + 1, 0);
            assert(playback_step(q, frame_count).0.current_frame == 0);
        }
        assert(a + 1 == p.current_frame + k);
    } else {
        vstd::arithmetic::div_mod::lemma_small_mod(p.current_frame as nat, frame_count as nat);
    }
}

/// A one-shot animation that has stopped stays stopped on its frame.
pub proof fn lemma_completed_stays(p: FramePlayback, frame_count: usize, k: nat)
    requires
        p.completed,
    ensures
        playback_after(p, frame_count, k) == p,
    decreases k,
{
    if k > 0 {
        lemma_completed_stays(p, frame_count, (k - 1) as nat);
    }
}

/// Over any number of frame-timer firings, an animation started on one of
/// its frames stays on one of its frames.
pub proof fn lemma_frame_in_range(p: FramePlayback, frame_count: usize, k: nat)
    requires
        p.current_frame < frame_count,
    ensures
        playback_after(p, frame_count, k).current_frame < frame_count,
        playback_after(p, frame_count, k).one_shot == p.one_shot,
    decreases k,
{
    if k > 0 {
        lemma_frame_in_range(p, frame_count, (k - 1) as nat);
    }
}

/// A one-shot animation started on frame `c` of `frame_count` plays the
/// frames `c, c + 1, ...` up to the last one, then stops on the last frame
/// at the next firing, and stays stopped.
pub proof fn lemma_one_shot_completes(p: FramePlayback, frame_count: usize, k: nat)
    requires
        p.one_shot,
        !p.completed,
        p.current_frame < frame_count,
    ensures
        p.current_frame + k < frame_count ==> playback_after(p, frame_count, k).current_frame
            == p.current_frame + k && !playback_after(p, frame_count, k).completed,
        p.current_frame + k >= frame_count ==> playback_after(p, frame_count, k).current_frame
            == frame_count - 1 && playback_after(p, frame_count, k).completed,
    decreases k,
{
    if k > 0 {
        lemma_one_shot_completes(p, frame_count, (k - 1) as nat);
        let q = playback_after(p, frame_count, (k - 1) as nat);
        assert(playback_after(p, frame_count, k) == playback_step(q, frame_count).0);
        assert(q.one_shot) by {
            lemma_frame_in_range(p, frame_count, (k - 1) as nat);
        }
    }
}

impl FramePlayback {
    /// A looping animation on its first frame.
    pub fn new() -> (p: Self)
        ensures
            p.current_frame == 0,
            !p.one_shot,
            !p.completed,
    {
        FramePlayback { current_frame: 0, one_shot: false, completed: false }
    }

    /// The same animation, stopping on its last frame.
    pub fn one_shot(self) -> (p: Self)
        ensures
            p.current_frame == self.current_frame,
            p.one_shot,
            p.completed == self.completed,
    {
        FramePlayback { one_shot: true, ..self }
    }

    /// The frame timer fired on an animation of `frame_count` frames:
    /// moves to the next frame and returns it. Past the last frame a
    /// looping animation starts over at 0, while a one-shot one is marked
    /// completed and returns `None` (it stays on its last frame). A
    /// completed animation does not move.
    pub fn advance(&mut self, frame_count: usize) -> (shown: Option<usize>)
        requires
            frame_count > 0,
        ensures
            old(self).completed ==> *final(self) == *old(self) && shown is None,
            !old(self).completed && old(self).current_frame + 1 < frame_count ==> shown == Some(
                (old(self).current_frame + 1) as usize,
            ) && final(self).current_frame == old(self).current_frame + 1 && !final(self).completed,
            !old(self).completed && old(self).current_frame + 1 >= frame_count && old(self).one_shot
                ==> shown is None && final(self).completed && final(self).current_frame
                == old(self).current_frame,
            !old(self).completed && old(self).current_frame + 1 >= frame_count && !old(self).one_shot
                ==> shown == Some(0usize) && final(self).current_frame == 0 && !final(self).completed,
            final(self).one_shot == old(self).one_shot,
            (*final(self), shown) == playback_step(*old(self), frame_count),
    {
        if self.completed {
            return None;
        }
        let last = frame_count - 1;
        if self.current_frame >= last {
            if self.one_shot {
                self.completed = true;
                return None;
            }
            self.current_frame = 0;
        } else {
            self.current_frame = self.current_frame + 1;
        }
        Some(self.current_frame)
    }
}

} // verus!
