use vstd::prelude::*;

verus! {

/// The volume at full scale, in percent.
pub const VOLUME_FULL: u32 = 100;

#[derive(Clone, Copy, Debug, PartialEq, Eq, Structural)]
pub enum PlaybackState {
    Playing,
    Paused,
}

/// The abstract state of a transport: times are in milliseconds and the
/// volume in percent.
pub struct TransportView {
    pub state: PlaybackState,
    pub position: nat,
    pub duration: nat,
    pub volume: nat,
    pub finished: bool,
}

/// `p` clamped to `[lo, hi]`.
pub open spec fn clamp(p: int, lo: int, hi: int) -> int {
    if p < lo { lo } else if p > hi { hi } else { p }
}

/// The volume after one adjustment by `delta`.
pub open spec fn volume_step(v: int, delta: int) -> nat {
    clamp(v + delta, 0, VOLUME_FULL as int) as nat
}

/// The volume after `k` equal adjustments by `delta`.
pub open spec fn volume_steps(v: int, delta: int, k: nat) -> nat
    decreases k,
{
    if k == 0 {
        v as nat
    } else {
        volume_step(volume_steps(v, delta, (k - 1) as nat) as int, delta)
    }
}

/// The transport after a seek by `offset` milliseconds: the position is
/// clamped to the track, and reaching or passing the end finishes it.
pub open spec fn seeked(t: TransportView, offset: int) -> TransportView {
    TransportView {
        position: clamp(t.position + offset, 0, t.duration as int) as nat,
        finished: t.position + offset >= t.duration,
        ..t
    }
}

/// The state after playback has run for `elapsed` milliseconds: only a
/// playing transport moves, and it stops at the end of the track.
pub open spec fn advanced(t: TransportView, elapsed: nat) -> TransportView {
    if t.state == PlaybackState::Playing {
        if t.position + elapsed >= t.duration {
            TransportView { position: t.duration, finished: true, ..t }
        } else {
            TransportView { position: t.position + elapsed, ..t }
        }
    } else {
        t
    }
}

/// The state after playback has run for each span of `steps` in turn.
pub open spec fn advanced_all(t: TransportView, steps: Seq<nat>) -> TransportView
    decreases steps.len(),
{
    if steps.len() == 0 {
        t
    } else {
        advanced_all(advanced(t, steps[0]), steps.drop_first())
    }
}

/// The sum of a sequence of spans.
pub open spec fn total(steps: Seq<nat>) -> nat
    decreases steps.len(),
{
    if steps.len() == 0 {
        0
    } else {
        steps[0] + total(steps.drop_first())
    }
}

/// Length in milliseconds of `sample_count` interleaved samples of
/// `channels` channels at `sample_rate` frames per second, rounded down.
pub open spec fn duration_of(sample_count: nat, sample_rate: nat, channels: nat) -> nat {
    sample_count * 1000 / (sample_rate * channels)
}

/// Length in milliseconds of a decoded track, saturating at `u64::MAX`.
pub fn track_duration_ms(sample_count: u64, sample_rate: u32, channels: u16) -> (r: u64)
    requires
        sample_rate > 0,
        channels > 0,
    ensures
        r == if duration_of(sample_count as nat, sample_rate as nat, channels as nat) > u64::MAX {
            u64::MAX as nat
        } else {
            duration_of(sample_count as nat, sample_rate as nat, channels as nat)
        },
{
    proof {
        assert((sample_rate as int) * (channels as int) <= 0xffff_ffffint * 0xffffint) by (nonlinear_arith)
            requires
                0 <= sample_rate <= 0xffff_ffffint,
                0 <= channels <= 0xffffint,
        ;
        assert((sample_rate as int) * (channels as int) > 0) by (nonlinear_arith)
            requires
                sample_rate > 0,
                channels > 0,
        ;
    }
    let samples_per_second: u64 = sample_rate as u64 * channels as u64;
    let scaled: u128 = sample_count as u128 * 1000;
    let ms: u128 = scaled / samples_per_second as u128;
    if ms > u64::MAX as u128 {
        u64::MAX
    } else {
        ms as u64
    }
}

/// The transport of one track: play state, position, volume and whether the
/// end was reached. The output device follows it; it never blocks.
pub struct Transport {
    state: PlaybackState,
    position: u64,
    duration: u64,
    volume: u32,
    finished: bool,
}

impl View for Transport {
    type V = TransportView;

    closed spec fn view(&self) -> TransportView {
        TransportView {
            state: self.state,
            position: self.position as nat,
            duration: self.duration as nat,
            volume: self.volume as nat,
            finished: self.finished,
        }
    }
}

impl Transport {
    /// Position within the track, volume within full scale, and a finished
    /// transport stands at the end.
    pub open spec fn wf(&self) -> bool {
        &&& self@.position <= self@.duration
        &&& self@.volume <= VOLUME_FULL
        &&& self@.finished ==> self@.position == self@.duration
    }

    /// A transport at the start of a track of `duration` milliseconds,
    /// playing at full volume.
    pub fn new(duration: u64) -> (t: Self)
        ensures
            t.wf(),
            t@ == (TransportView {
                state: PlaybackState::Playing,
                position: 0,
                duration: duration as nat,
                volume: VOLUME_FULL as nat,
                finished: false,
            }),
    {
        Transport { state: PlaybackState::Playing, position: 0, duration, volume: VOLUME_FULL, finished: false }
    }

    pub fn state(&self) -> (r: PlaybackState)
        ensures
            r == self@.state,
    {
        self.state
    }

    /// Position in milliseconds.
    pub fn position(&self) -> (r: u64)
        ensures
            r == self@.position,
    {
        self.position
    }

    /// Duration in milliseconds.
    pub fn duration(&self) -> (r: u64)
        ensures
            r == self@.duration,
    {
        self.duration
    }

    /// Volume in percent.
    pub fn volume(&self) -> (r: u32)
        ensures
            r == self@.volume,
    {
        self.volume
    }

    pub fn is_finished(&self) -> (r: bool)
        ensures
            r == self@.finished,
    {
        self.finished
    }

    pub fn play(&mut self)
        requires
            old(self).wf(),
        ensures
            final(self).wf(),
            final(self)@ == (TransportView { state: PlaybackState::Playing, ..old(self)@ }),
    {
        self.state = PlaybackState::Playing;
    }

    pub fn pause(&mut self)
        requires
            old(self).wf(),
        ensures
            final(self).wf(),
            final(self)@ == (TransportView { state: PlaybackState::Paused, ..old(self)@ }),
    {
        self.state = PlaybackState::Paused;
    }

    pub fn toggle(&mut self)
        requires
            old(self).wf(),
        ensures
            final(self).wf(),
            final(self)@ == (TransportView {
                state: if old(self)@.state == PlaybackState::Playing {
                    PlaybackState::Paused
                } else {
                    PlaybackState::Playing
                },
                ..old(self)@
            }),
    {
        match self.state {
            PlaybackState::Playing => self.pause(),
            PlaybackState::Paused => self.play(),
        }
    }

    /// Back to the start of the track, playing.
    pub fn restart(&mut self)
        requires
            old(self).wf(),
        ensures
            final(self).wf(),
            final(self)@ == (TransportView {
                state: PlaybackState::Playing,
                position: 0,
                finished: false,
                ..old(self)@
            }),
    {
        self.position = 0;
        self.finished = false;
        self.state = PlaybackState::Playing;
    }

    /// Moves the position by `offset` milliseconds, clamped to the track;
    /// reaching or passing the end finishes it. Returns the new position.
    pub fn seek(&mut self, offset: i64) -> (r: u64)
        requires
            old(self).wf(),
        ensures
            final(self).wf(),
            r == final(self)@.position,
            final(self)@ == seeked(old(self)@, offset as int),
    {
        let target: i128 = self.position as i128 + offset as i128;
        if target >= self.duration as i128 {
            self.position = self.duration;
            self.finished = true;
        } else {
            self.position = if target < 0 { 0 } else { target as u64 };
            self.finished = false;
        }
        self.position
    }

    /// Adjusts the volume by `delta` percent, clamped to `[0, VOLUME_FULL]`.
    pub fn set_volume(&mut self, delta: i32)
        requires
            old(self).wf(),
        ensures
            final(self).wf(),
            final(self)@ == (TransportView {
                volume: volume_step(old(self)@.volume as int, delta as int),
                ..old(self)@
            }),
    {
        let v: i64 = self.volume as i64 + delta as i64;
        self.volume = if v < 0 {
            0
        } else if v > VOLUME_FULL as i64 {
            VOLUME_FULL
        } else {
            v as u32
        };
    }

    /// Playback has run for `elapsed` milliseconds.
    pub fn advance(&mut self, elapsed: u64)
        requires
            old(self).wf(),
        ensures
            final(self).wf(),
            final(self)@ == advanced(old(self)@, elapsed as nat),
    {
        if self.state == PlaybackState::Playing {
            if elapsed >= self.duration - self.position {
                self.position = self.duration;
                self.finished = true;
            } else {
                self.position = self.position + elapsed;
            }
        }
    }

    /// Takes the position that the output reports, clamped to the track; an
    /// output that has played everything finishes the track, and a finished
    /// track stays at its end.
    pub fn sync_position(&mut self, reported: u64, drained: bool)
        requires
            old(self).wf(),
        ensures
            final(self).wf(),
            final(self)@ == (TransportView {
                position: if drained || old(self)@.finished {
                    old(self)@.duration
                } else {
                    clamp(reported as int, 0, old(self)@.duration as int) as nat
                },
                finished: drained || old(self)@.finished,
                ..old(self)@
            }),
    {
        if drained || self.finished {
            self.position = self.duration;
            self.finished = true;
        } else if reported > self.duration {
            self.position = self.duration;
        } else {
            self.position = reported;
        }
    }
}

/// Adjusting the volume again and again in one direction stops at exactly
/// full scale (going up) or zero (going down), never beyond: after at most
/// `VOLUME_FULL` steps it has arrived, and every step stays in range.
pub proof fn lemma_volume_saturates(v: nat, delta: int, k: nat)
    requires
        v <= VOLUME_FULL,
        delta != 0,
    ensures
        volume_steps(v as int, delta, k) <= VOLUME_FULL,
        k >= VOLUME_FULL ==> volume_steps(v as int, delta, k) == (if delta > 0 {
            VOLUME_FULL as nat
        } else {
            0
        }),
{
    lemma_volume_progress(v, delta, k);
}

proof fn lemma_volume_progress(v: nat, delta: int, k: nat)
    requires
        v <= VOLUME_FULL,
        delta != 0,
    ensures
        volume_steps(v as int, delta, k) <= VOLUME_FULL,
        delta > 0 ==> volume_steps(v as int, delta, k) >= clamp((v + k) as int, 0, VOLUME_FULL as int),
        delta < 0 ==> volume_steps(v as int, delta, k) <= clamp(v - k, 0, VOLUME_FULL as int),
    decreases k,
{
    if k > 0 {
        lemma_volume_progress(v, delta, (k - 1) as nat);
    }
}

/// Once playback runs without a pause for at least as long as is left of
/// the track, the track is finished and stands at its end.
pub proof fn lemma_playback_reaches_end(t: TransportView, steps: Seq<nat>)
    requires
        t.position <= t.duration,
        t.finished ==> t.position == t.duration,
        t.state == PlaybackState::Playing,
        t.position + total(steps) >= t.duration,
        steps.len() > 0 || t.finished,
    ensures
        advanced_all(t, steps).finished,
        advanced_all(t, steps).position == t.duration,
    decreases steps.len(),
{
    if steps.len() > 0 {
        let next = advanced(t, steps[0]);
        if t.position + steps[0] >= t.duration {
            lemma_finished_stays(next, steps.drop_first());
        } else {
            lemma_playback_reaches_end(next, steps.drop_first());
        }
    }
}

proof fn lemma_finished_stays(t: TransportView, steps: Seq<nat>)
    requires
        t.finished,
        t.position == t.duration,
    ensures
        advanced_all(t, steps).finished,
        advanced_all(t, steps).position == t.duration,
        advanced_all(t, steps).duration == t.duration,
    decreases steps.len(),
{
    if steps.len() > 0 {
        lemma_finished_stays(advanced(t, steps[0]), steps.drop_first());
    }
}

} // verus!
