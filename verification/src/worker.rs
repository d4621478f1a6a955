//! The audio worker's state transitions: after the worker runs one effect on
//! the audio output, it records the actual device state here.

use vstd::prelude::*;

verus! {

use crate::dispatch::spec_clamp_volume;
use crate::models::{PlaybackState, StateModel, Track, TrackModel};

/// What the audio worker observed after running one effect on the audio
/// output collaborator.
#[derive(Debug, PartialEq)]
pub enum AudioEvent {
    /// The play-file operation succeeded for this track.
    PlayStarted(Track),
    /// The play-file operation failed; the previous current track is kept.
    PlayFailed,
    Paused,
    Resumed,
    Stopped,
    /// The collaborator accepted this (already clamped) volume.
    VolumeSet(u8),
    /// The collaborator reported a successful seek to this position.
    SeekDone(u64),
    /// The collaborator reported the seek failed; the position is kept.
    SeekFailed,
}

/// The state after the worker started playing `t`.
pub open spec fn spec_play_started(s: StateModel, t: TrackModel) -> StateModel {
    StateModel { current_track: Some(t), is_playing: true, position: 0, ..s }
}

/// The state after a stop took effect.
pub open spec fn spec_stopped(s: StateModel) -> StateModel {
    StateModel { current_track: None, is_playing: false, position: 0, ..s }
}

/// How one observed audio event updates the shared state.
pub open spec fn spec_apply_event(s: StateModel, ev: AudioEvent) -> StateModel {
    match ev {
        AudioEvent::PlayStarted(t) => spec_play_started(s, t@),
        AudioEvent::PlayFailed => StateModel { is_playing: false, ..s },
        AudioEvent::Paused => StateModel { is_playing: false, ..s },
        AudioEvent::Resumed => StateModel { is_playing: true, ..s },
        AudioEvent::Stopped => spec_stopped(s),
        AudioEvent::VolumeSet(v) => StateModel { volume: spec_clamp_volume(v), ..s },
        AudioEvent::SeekDone(p) => StateModel { position: p, ..s },
        AudioEvent::SeekFailed => s,
    }
}

/// Records in the shared state what one audio effect actually did, per
/// [`spec_apply_event`]: a successful play sets the new current track,
/// playing, at position zero; a failed play only clears the playing flag and
/// leaves the current track untouched; a stop clears the current track and
/// position; a volume change stores the clamped value; a seek updates the
/// position only on success. The queue, its index, shuffle and repeat are
/// never touched here, and the state invariant is preserved.
pub fn apply_audio_event(state: &mut PlaybackState, ev: AudioEvent)
    requires
        old(state).wf(),
    ensures
        final(state).wf(),
        final(state)@ == spec_apply_event(old(state)@, ev),
{
    match ev {
        AudioEvent::PlayStarted(t) => {
            state.current_track = Some(t);
            state.is_playing = true;
            state.position = 0;
        },
        AudioEvent::PlayFailed => {
            state.is_playing = false;
        },
        AudioEvent::Paused => {
            state.is_playing = false;
        },
        AudioEvent::Resumed => {
            state.is_playing = true;
        },
        AudioEvent::Stopped => {
            state.current_track = None;
            state.is_playing = false;
            state.position = 0;
        },
        AudioEvent::VolumeSet(v) => {
            state.volume = if v > 100 {
                100
            } else {
                v
            };
        },
        AudioEvent::SeekDone(p) => {
            state.position = p;
        },
        AudioEvent::SeekFailed => {},
    }
}

} // verus!
