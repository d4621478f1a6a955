//! The playback monitor's decisions: when to poll the worker, how to record a
//! reported position, and the automatic track-advance algorithm run when a
//! track finishes.

use vstd::prelude::*;

verus! {

use vstd::arithmetic::div_mod::{lemma_mod_self_0, lemma_small_mod};

use crate::models::{PlaybackState, RepeatMode, StateModel, Track, TrackModel};
use crate::worker::spec_play_started;

/// Whether the monitor should poll the worker this tick: only while something
/// is actually playing.
pub fn should_poll(state: &PlaybackState) -> (r: bool)
    ensures
        r == (state@.is_playing && state@.current_track is Some),
{
    state.is_playing && state.current_track.is_some()
}

/// Stores a position the worker reported; nothing else changes.
pub fn record_position(state: &mut PlaybackState, pos: u64)
    requires
        old(state).wf(),
    ensures
        final(state).wf(),
        final(state)@ == (StateModel { position: pos, ..old(state)@ }),
{
    state.position = pos;
}

/// The automatic advance on track completion: given the state and one random
/// draw, the state afterwards and the track to play next, if any.
///
/// With repeat-one, the current track replays and nothing changes. With an
/// empty queue, playback just stops. With shuffle, the draw picks the next
/// index uniformly over the queue. Otherwise the next slot follows in order;
/// past the last slot with repeat off, playback stops, the current track is
/// cleared, and the queue index is left where it was rather than reset.
pub open spec fn spec_advance(s: StateModel, entropy: u64) -> (StateModel, Option<TrackModel>) {
    if s.repeat == RepeatMode::One && s.current_track is Some {
        (s, Some(s.current_track->0))
    } else if s.queue.len() == 0 {
        (StateModel { current_track: None, is_playing: false, position: 0, ..s }, None)
    } else if s.shuffle {
        let idx = (entropy as int) % (s.queue.len() as int);
        (StateModel { queue_index: idx, ..s }, Some(s.queue[idx]))
    } else {
        let nxt = (s.queue_index + 1) % (s.queue.len() as int);
        if nxt == 0 && s.repeat == RepeatMode::Off {
            (StateModel { current_track: None, is_playing: false, position: 0, ..s }, None)
        } else {
            (StateModel { queue_index: nxt, ..s }, Some(s.queue[nxt]))
        }
    }
}

/// Runs the advance algorithm on a finished track, per [`spec_advance`]. The
/// caller supplies one random draw (used only under shuffle) and plays the
/// returned track, if any; when no track comes back, playback has already
/// been stopped here.
pub fn auto_advance(state: &mut PlaybackState, entropy: u64) -> (r: Option<Track>)
    requires
        old(state).wf(),
    ensures
        final(state).wf(),
        final(state)@ == spec_advance(old(state)@, entropy).0,
        (match r {
            Some(t) => Some(t@),
            None => None,
        }) == spec_advance(old(state)@, entropy).1,
{
    if state.repeat == RepeatMode::One && state.current_track.is_some() {
        match &state.current_track {
            Some(t) => Some(t.clone()),
            None => None,
        }
    } else if state.queue.len() == 0 {
        state.current_track = None;
        state.is_playing = false;
        state.position = 0;
        None
    } else if state.shuffle {
        let n = state.queue.len();
        let idx = (entropy % (n as u64)) as usize;
        state.queue_index = idx;
        Some(state.queue[idx].clone())
    } else {
        let n = state.queue.len();
        let nxt = if state.queue_index + 1 < n {
            state.queue_index + 1
        } else {
            0
        };
        proof {
            if old(state).queue_index + 1 < n {
                lemma_small_mod((old(state).queue_index + 1) as nat, n as nat);
            } else {
                lemma_mod_self_0(n as int);
            }
        }
        if nxt == 0 && state.repeat == RepeatMode::Off {
            state.current_track = None;
            state.is_playing = false;
            state.position = 0;
            None
        } else {
            state.queue_index = nxt;
            Some(state.queue[nxt].clone())
        }
    }
}

/// One full finish cycle at the model level: the advance algorithm runs, and
/// if it yields a track, the worker then reports that the track started.
pub open spec fn spec_finish_step(s: StateModel, entropy: u64) -> StateModel {
    let stepped = spec_advance(s, entropy);
    match stepped.1 {
        Some(t) => spec_play_started(stepped.0, t),
        None => stepped.0,
    }
}

/// `k` finish cycles in a row, without shuffle draws.
pub open spec fn spec_finish_steps(s: StateModel, k: nat) -> StateModel
    decreases k,
{
    if k == 0 {
        s
    } else {
        spec_finish_step(spec_finish_steps(s, (k - 1) as nat), 0)
    }
}

proof fn lemma_finish_steps_mid(s: StateModel, k: nat)
    requires
        s.wf(),
        !s.shuffle,
        s.repeat == RepeatMode::Off,
        s.queue.len() > 0,
        s.queue_index == 0,
        s.is_playing,
        s.current_track is Some,
        k < s.queue.len(),
    ensures
        ({
            let t = spec_finish_steps(s, k);
            &&& t.queue == s.queue
            &&& t.shuffle == s.shuffle
            &&& t.repeat == s.repeat
            &&& t.queue_index == k
            &&& t.is_playing
            &&& t.current_track is Some
        }),
    decreases k,
{
    if k > 0 {
        lemma_finish_steps_mid(s, (k - 1) as nat);
        lemma_small_mod(k, s.queue.len());
    }
}

/// Law: with shuffle off and repeat off, a non-empty queue plays through in
/// order. Starting from index zero while playing, each finished track is
/// followed by the next; after the final track finishes, playback stops, no
/// track is current, and the queue index is left at the last slot, not reset.
pub proof fn lemma_queue_plays_through(s: StateModel)
    requires
        s.wf(),
        !s.shuffle,
        s.repeat == RepeatMode::Off,
        s.queue.len() > 0,
        s.queue_index == 0,
        s.is_playing,
        s.current_track is Some,
    ensures
        ({
            let t = spec_finish_steps(s, s.queue.len());
            &&& !t.is_playing
            &&& t.current_track is None
            &&& t.queue_index == s.queue.len() - 1
            &&& t.queue == s.queue
        }),
{
    let n = s.queue.len();
    lemma_finish_steps_mid(s, (n - 1) as nat);
    lemma_mod_self_0(n as int);
}

/// Law: with repeat-one, an automatic advance leaves the state — the queue
/// index in particular — unchanged and replays the current track.
pub proof fn lemma_repeat_one_replays(s: StateModel, entropy: u64)
    requires
        s.repeat == RepeatMode::One,
        s.current_track is Some,
    ensures
        spec_advance(s, entropy).0 == s,
        spec_advance(s, entropy).1 == Some(s.current_track->0),
{
}

/// Law: any state that satisfies the invariant — and every mutator in this
/// crate preserves it, so a status snapshot satisfies it too — keeps the
/// queue index strictly inside a non-empty queue.
pub proof fn lemma_status_index_in_bounds(s: StateModel)
    requires
        s.wf(),
        s.queue.len() > 0,
    ensures
        0 <= s.queue_index < s.queue.len(),
{
}

} // verus!
