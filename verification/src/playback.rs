//! Decisions of the playback scheduler: which frame is current, whether the
//! ticker runs, what each seek or tick renders and which frames are
//! pre-rendered ahead. The rendering, the timer and the channel to the
//! client are the caller's; it performs what these functions decide.

use vstd::prelude::*;

verus! {

/// Frames pre-rendered ahead of the playhead while playing.
pub const PREFETCH_PLAYING: u32 = 10;

/// Frames pre-rendered ahead of the playhead while paused.
pub const PREFETCH_PAUSED: u32 = 3;

/// The last frame of a timeline of `total` frames; frame 0 when it has none.
pub open spec fn last_frame(total: u32) -> int {
    if total == 0 {
        0
    } else {
        total - 1
    }
}

/// The frame a seek to `frame` lands on: the frame itself, clamped to the
/// last frame.
pub open spec fn seek_target(frame: u32, total: u32) -> int {
    if frame <= last_frame(total) {
        frame as int
    } else {
        last_frame(total)
    }
}

/// The frame after `frame` during playback: the next one, or frame 0 once
/// the end of the timeline is reached.
pub open spec fn next_frame(frame: u32, total: u32) -> int {
    if frame + 1 >= total {
        0
    } else {
        frame + 1
    }
}

/// The frames pre-rendered after `start`: up to `buffer` frames following
/// it, stopping before the end of the timeline.
pub open spec fn prefetch_spec(start: u32, total: u32, buffer: u32) -> Seq<u32> {
    let n = if start + buffer < total {
        buffer as int
    } else if start < total {
        total - 1 - start
    } else {
        0
    };
    Seq::new(n as nat, |i: int| (start + 1 + i) as u32)
}

/// The number of frames pre-rendered ahead in the given mode.
pub open spec fn buffer_for(is_playing: bool) -> u32 {
    if is_playing {
        PREFETCH_PLAYING
    } else {
        PREFETCH_PAUSED
    }
}

/// What one tick of the playback timer does.
#[derive(Debug, Clone, Copy, PartialEq, Eq, Structural)]
pub enum TickOutcome {
    /// Playback was paused: the ticker ends and nothing is rendered.
    Stopped,
    /// The end was reached: the playhead went back to frame 0, which is
    /// rendered without pre-rendering ahead.
    Wrapped,
    /// The playhead moved to this frame, which is rendered, and the frames
    /// after it are pre-rendered.
    Advanced(u32),
}

/// The playhead and the play/pause flag of a preview session.
#[derive(Debug, Clone, Copy, PartialEq, Eq, Structural)]
pub struct PlaybackState {
    pub current_frame: u32,
    pub is_playing: bool,
}

impl PlaybackState {
    /// A paused session at frame 0.
    pub fn new() -> (s: Self)
        ensures
            s.current_frame == 0,
            !s.is_playing,
    {
        PlaybackState { current_frame: 0, is_playing: false }
    }

    /// Move the playhead to `frame`, clamped to the last frame of a timeline
    /// of `total_frames` frames; returns the frame landed on, which is then
    /// rendered and followed by pre-rendering. The play flag is kept.
    pub fn seek(&mut self, frame: u32, total_frames: u32) -> (target: u32)
        ensures
            target == seek_target(frame, total_frames),
            final(self).current_frame == target,
            final(self).is_playing == old(self).is_playing,
    {
        let last = total_frames.saturating_sub(1);
        let target = if frame <= last { frame } else { last };
        self.current_frame = target;
        target
    }

    /// Start playing; returns whether a ticker is to be started, which is
    /// the case unless the session was already playing.
    pub fn play(&mut self) -> (started: bool)
        ensures
            started == !old(self).is_playing,
            final(self).is_playing,
            final(self).current_frame == old(self).current_frame,
    {
        if self.is_playing {
            false
        } else {
            self.is_playing = true;
            true
        }
    }

    /// Stop playing; the ticker is to be stopped.
    pub fn pause(&mut self)
        ensures
            !final(self).is_playing,
            final(self).current_frame == old(self).current_frame,
    {
        self.is_playing = false;
    }

    /// One tick of the playback timer on a timeline of `total_frames`
    /// frames.
    pub fn tick(&mut self, total_frames: u32) -> (out: TickOutcome)
        requires
            old(self).current_frame < u32::MAX,
        ensures
            !old(self).is_playing ==> out == TickOutcome::Stopped && *final(self) == *old(self),
            old(self).is_playing ==> final(self).is_playing && final(self).current_frame
                == next_frame(old(self).current_frame, total_frames),
            old(self).is_playing && old(self).current_frame + 1 >= total_frames ==> out
                == TickOutcome::Wrapped,
            old(self).is_playing && old(self).current_frame + 1 < total_frames ==> out
                == TickOutcome::Advanced(final(self).current_frame),
    {
        if !self.is_playing {
            return TickOutcome::Stopped;
        }
        self.current_frame = self.current_frame + 1;
        if self.current_frame >= total_frames {
            self.current_frame = 0;
            TickOutcome::Wrapped
        } else {
            TickOutcome::Advanced(self.current_frame)
        }
    }

    /// The frames to pre-render after `start_frame` in the current mode.
    pub fn prefetch_frames(&self, start_frame: u32, total_frames: u32) -> (frames: Vec<u32>)
        ensures
            frames@ == prefetch_spec(start_frame, total_frames, buffer_for(self.is_playing)),
    {
        let buffer = if self.is_playing { PREFETCH_PLAYING } else { PREFETCH_PAUSED };
        prefetch_after(start_frame, total_frames, buffer)
    }
}

/// The frames `start + 1, start + 2, ...` up to `buffer` of them, stopping
/// at the first frame that is past the end of the timeline.
pub fn prefetch_after(start: u32, total: u32, buffer: u32) -> (frames: Vec<u32>)
    ensures
        frames@ == prefetch_spec(start, total, buffer),
{
    let mut frames: Vec<u32> = Vec::new();
    let mut i: u64 = 1;
    while i <= buffer as u64 && (start as u64) + i < total as u64
        invariant
            1 <= i <= buffer as u64 + 1,
            start as int + i - 1 < total || i == 1,
            frames@ == Seq::new((i - 1) as nat, |k: int| (start + 1 + k) as u32),
        decreases buffer as u64 + 1 - i,
    {
        frames.push(((start as u64) + i) as u32);
        assert(frames@ =~= Seq::new(i as nat, |k: int| (start + 1 + k) as u32));
        i = i + 1;
    }
    assert(frames@ =~= prefetch_spec(start, total, buffer));
    frames
}

/// A seek lands on a frame of the timeline, at or before the one asked for.
pub proof fn lemma_seek_in_range(frame: u32, total: u32)
    ensures
        seek_target(frame, total) <= frame,
        total > 0 ==> 0 <= seek_target(frame, total) < total,
        frame < total ==> seek_target(frame, total) == frame,
{
}

/// A seek past the end of a timeline with frames lands on its last frame.
pub proof fn lemma_seek_past_end(frame: u32, total: u32)
    requires
        total > 0,
        frame >= total,
    ensures
        seek_target(frame, total) == total - 1,
{
}

/// Seeking further never lands earlier: the frame landed on grows with the
/// frame asked for.
pub proof fn lemma_seek_monotonic(a: u32, b: u32, total: u32)
    requires
        a <= b,
    ensures
        seek_target(a, total) <= seek_target(b, total),
{
}

/// On a timeline with frames, a tick from a frame of the timeline moves to
/// the following frame modulo the timeline's length.
pub proof fn lemma_tick_is_rotation(frame: u32, total: u32)
    requires
        frame < total,
    ensures
        next_frame(frame, total) == (frame + 1) % (total as int),
        0 <= next_frame(frame, total) < total,
{
    if frame + 1 == total {
        vstd::arithmetic::div_mod::lemma_mod_self_0(total as int);
    } else {
        vstd::arithmetic::div_mod::lemma_small_mod((frame + 1) as nat, total as nat);
    }
}

/// The frame reached from `frame` after `k` ticks of playback.
pub open spec fn frame_after(frame: u32, total: u32, k: nat) -> int
    decreases k,
{
    if k == 0 {
        frame as int
    } else {
        next_frame(frame_after(frame, total, (k - 1) as nat) as u32, total)
    }
}

/// Playback loops: after `k` ticks from a frame of the timeline the playhead
/// is `k` frames further modulo the timeline's length, so after as many
/// ticks as there are frames it is back where it started.
pub proof fn lemma_playback_loops(frame: u32, total: u32, k: nat)
    requires
        frame < total,
    ensures
        frame_after(frame, total, k) == (frame + k) % (total as int),
        frame_after(frame, total, total as nat) == frame,
{
    lemma_playback_loops_steps(frame, total, k);
    lemma_playback_loops_steps(frame, total, total as nat);
    vstd::arithmetic::div_mod::lemma_mod_add_multiples_vanish(frame as int, total as int);
    vstd::arithmetic::div_mod::lemma_small_mod(frame as nat, total as nat);
}

proof fn lemma_playback_loops_steps(frame: u32, total: u32, k: nat)
    requires
        frame < total,
    ensures
        frame_after(frame, total, k) == (frame + k) % (total as int),
    decreases k,
{
    if k == 0 {
        vstd::arithmetic::div_mod::lemma_small_mod(frame as nat, total as nat);
    } else {
        lemma_playback_loops_steps(frame, total, (k - 1) as nat);
        let prev = frame_after(frame, total, (k - 1) as nat);
        vstd::arithmetic::div_mod::lemma_mod_bound((frame + k - 1) as int, total as int);
        lemma_tick_is_rotation(prev as u32, total);
        vstd::arithmetic::div_mod::lemma_add_mod_noop((frame + k - 1) as int, 1, total as int);
        if total > 1 {
            vstd::arithmetic::div_mod::lemma_small_mod(1, total as nat);
        }
        if total == 1 {
            vstd::arithmetic::div_mod::lemma_mod_self_0(1);
        }
    }
}

/// Pre-rendered frames follow the start frame one by one, are at most as
/// many as the buffer, and all lie on the timeline.
pub proof fn lemma_prefetch_in_range(start: u32, total: u32, buffer: u32)
    ensures
        prefetch_spec(start, total, buffer).len() <= buffer,
        forall|i: int|
            0 <= i < prefetch_spec(start, total, buffer).len() ==> #[trigger] prefetch_spec(
                start,
                total,
                buffer,
            )[i] == start + 1 + i && prefetch_spec(start, total, buffer)[i] < total,
{
}

} // verus!
