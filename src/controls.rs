use vstd::prelude::*;
use crate::transport::{PlaybackState, Transport, TransportView, seeked, volume_step};

verus! {

/// A discrete request from the input layer.
#[derive(Clone, Copy, Debug, PartialEq, Eq, Structural)]
pub enum Action {
    Quit,
    PlayPauseToggle,
    Restart,
    /// Forward by this many milliseconds.
    SeekForward(u32),
    /// Back by this many milliseconds.
    SeekBackward(u32),
    /// Up by this many percent.
    VolumeUp(u8),
    /// Down by this many percent.
    VolumeDown(u8),
    Continue,
}

/// What the output device has to do to follow the transport after an action.
#[derive(Clone, Copy, Debug, PartialEq, Eq, Structural)]
pub enum Effect {
    /// Stop the output and leave.
    Quit,
    /// Nothing to do.
    Nothing,
    Resume,
    Suspend,
    /// Seek the output to this position, in milliseconds.
    SeekTo(u64),
    /// Seek the output to the start and resume.
    Restart,
    /// Set the output volume, in percent.
    SetVolume(u32),
}

/// The transport after `a`.
pub open spec fn applied(t: TransportView, a: Action) -> TransportView {
    match a {
        Action::PlayPauseToggle => TransportView {
            state: if t.state == PlaybackState::Playing {
                PlaybackState::Paused
            } else {
                PlaybackState::Playing
            },
            ..t
        },
        Action::Restart => TransportView {
            state: PlaybackState::Playing,
            position: 0,
            finished: false,
            ..t
        },
        Action::SeekForward(d) => seeked(t, d as int),
        Action::SeekBackward(d) => seeked(t, -(d as int)),
        Action::VolumeUp(d) => TransportView { volume: volume_step(t.volume as int, d as int), ..t },
        Action::VolumeDown(d) => TransportView { volume: volume_step(t.volume as int, -(d as int)), ..t },
        _ => t,
    }
}

/// What the output has to do after `a` has led to the transport `after`.
pub open spec fn effect_of(after: TransportView, a: Action) -> Effect {
    match a {
        Action::Quit => Effect::Quit,
        Action::PlayPauseToggle => if after.state == PlaybackState::Playing {
            Effect::Resume
        } else {
            Effect::Suspend
        },
        Action::Restart => Effect::Restart,
        Action::SeekForward(_) => Effect::SeekTo(after.position as u64),
        Action::SeekBackward(_) => Effect::SeekTo(after.position as u64),
        Action::VolumeUp(_) => Effect::SetVolume(after.volume as u32),
        Action::VolumeDown(_) => Effect::SetVolume(after.volume as u32),
        Action::Continue => Effect::Nothing,
    }
}

impl Transport {
    /// Carries out one action of the input layer and says what the output
    /// device has to do to follow.
    pub fn apply(&mut self, a: Action) -> (e: Effect)
        requires
            old(self).wf(),
        ensures
            final(self).wf(),
            final(self)@ == applied(old(self)@, a),
            e == effect_of(final(self)@, a),
    {
        match a {
            Action::Quit => Effect::Quit,
            Action::PlayPauseToggle => {
                self.toggle();
                match self.state() {
                    PlaybackState::Playing => Effect::Resume,
                    PlaybackState::Paused => Effect::Suspend,
                }
            },
            Action::Restart => {
                self.restart();
                Effect::Restart
            },
            Action::SeekForward(d) => Effect::SeekTo(self.seek(d as i64)),
            Action::SeekBackward(d) => Effect::SeekTo(self.seek(-(d as i64))),
            Action::VolumeUp(d) => {
                self.set_volume(d as i32);
                Effect::SetVolume(self.volume())
            },
            Action::VolumeDown(d) => {
                self.set_volume(-(d as i32));
                Effect::SetVolume(self.volume())
            },
            Action::Continue => Effect::Nothing,
        }
    }
}

} // verus!
