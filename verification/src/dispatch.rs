//! The command dispatcher: one inbound request becomes at most one state
//! mutation, at most one audio command, and exactly one response.

use vstd::prelude::*;

verus! {

use vstd::arithmetic::div_mod::{lemma_mod_multiples_vanish, lemma_mod_self_0, lemma_small_mod};

use crate::ipc::{
    opt_audio_model, AudioCmdModel, AudioCommand, CmdModel, DaemonCommand, DaemonResponse,
    RespModel,
};
use crate::models::{PlaybackState, StateModel};

/// What one dispatched command produced: the response for the client, an
/// optional command for the audio worker, and whether the daemon should shut
/// down.
#[derive(Debug, PartialEq)]
pub struct CommandOutcome {
    pub response: DaemonResponse,
    pub effect: Option<AudioCommand>,
    pub shutdown: bool,
}

/// A volume request clamped into the 0..=100 range.
pub open spec fn spec_clamp_volume(v: u8) -> u8 {
    if v > 100 {
        100
    } else {
        v
    }
}

/// The queue index after a manual skip forward: always the next slot, wrapping
/// at the end, whatever the repeat mode.
pub open spec fn next_index(i: int, n: int) -> int
    recommends
        n > 0,
{
    (i + 1) % n
}

/// The queue index after a manual skip backward: always the previous slot,
/// wrapping from the front to the back.
pub open spec fn prev_index(i: int, n: int) -> int
    recommends
        n > 0,
{
    (i - 1 + n) % n
}

/// How the dispatcher answers one command: the relation between the state
/// before, the command, the state after, and the produced response, audio
/// effect and shutdown request.
pub open spec fn dispatch_rel(
    pre: StateModel,
    cmd: CmdModel,
    post: StateModel,
    response: RespModel,
    effect: Option<AudioCmdModel>,
    shutdown: bool,
) -> bool {
    match cmd {
        CmdModel::Play { track } => {
            &&& post == pre
            &&& response == RespModel::Okay
            &&& effect == Some(AudioCmdModel::Play(track))
            &&& !shutdown
        },
        CmdModel::PlayQueue { tracks, start_index } => {
            if tracks.len() == 0 {
                &&& post == pre
                &&& response == RespModel::Error("Queue is empty"@)
                &&& effect is None
                &&& !shutdown
            } else {
                let idx = if start_index < tracks.len() {
                    start_index
                } else {
                    tracks.len() - 1
                };
                &&& post == (StateModel { queue: tracks, queue_index: idx, ..pre })
                &&& response == RespModel::Okay
                &&& effect == Some(AudioCmdModel::Play(tracks[idx]))
                &&& !shutdown
            }
        },
        CmdModel::Pause => {
            &&& post == pre
            &&& response == RespModel::Okay
            &&& effect == Some(AudioCmdModel::Pause)
            &&& !shutdown
        },
        CmdModel::Resume => {
            &&& post == pre
            &&& response == RespModel::Okay
            &&& effect == Some(AudioCmdModel::Resume)
            &&& !shutdown
        },
        CmdModel::Stop => {
            &&& post == pre
            &&& response == RespModel::Okay
            &&& effect == Some(AudioCmdModel::Stop)
            &&& !shutdown
        },
        CmdModel::Next => {
            if pre.queue.len() == 0 {
                &&& post == pre
                &&& response == RespModel::Error("Queue is empty"@)
                &&& effect is None
                &&& !shutdown
            } else {
                let idx = next_index(pre.queue_index, pre.queue.len() as int);
                &&& post == (StateModel { queue_index: idx, ..pre })
                &&& response == RespModel::Okay
                &&& effect == Some(AudioCmdModel::Play(pre.queue[idx]))
                &&& !shutdown
            }
        },
        CmdModel::Previous => {
            if pre.queue.len() == 0 {
                &&& post == pre
                &&& response == RespModel::Error("Queue is empty"@)
                &&& effect is None
                &&& !shutdown
            } else {
                let idx = prev_index(pre.queue_index, pre.queue.len() as int);
                &&& post == (StateModel { queue_index: idx, ..pre })
                &&& response == RespModel::Okay
                &&& effect == Some(AudioCmdModel::Play(pre.queue[idx]))
                &&& !shutdown
            }
        },
        CmdModel::Seek { position } => {
            &&& post == pre
            &&& response == RespModel::Okay
            &&& effect == Some(AudioCmdModel::Seek(position))
            &&& !shutdown
        },
        CmdModel::SetVolume { volume } => {
            &&& post == pre
            &&& response == RespModel::Okay
            &&& effect == Some(AudioCmdModel::SetVolume(spec_clamp_volume(volume)))
            &&& !shutdown
        },
        CmdModel::SetShuffle { enabled } => {
            &&& post == (StateModel { shuffle: enabled, ..pre })
            &&& response == RespModel::Okay
            &&& effect is None
            &&& !shutdown
        },
        CmdModel::SetRepeat { mode } => {
            &&& post == (StateModel { repeat: mode, ..pre })
            &&& response == RespModel::Okay
            &&& effect is None
            &&& !shutdown
        },
        CmdModel::QueueAdd { track } => {
            &&& post == (StateModel { queue: pre.queue.push(track), ..pre })
            &&& response == RespModel::Okay
            &&& effect is None
            &&& !shutdown
        },
        CmdModel::QueueClear => {
            &&& post == (StateModel { queue: Seq::empty(), queue_index: 0, ..pre })
            &&& response == RespModel::Okay
            &&& effect is None
            &&& !shutdown
        },
        CmdModel::GetStatus => {
            &&& post == pre
            &&& response == RespModel::Status(pre)
            &&& effect is None
            &&& !shutdown
        },
        CmdModel::Shutdown => {
            &&& post == pre
            &&& response == RespModel::Okay
            &&& effect == Some(AudioCmdModel::Stop)
            &&& shutdown
        },
    }
}

/// Law: a manual skip forward always moves the queue index to the next slot
/// modulo the queue length, never stops playback, and always plays the track
/// at the new index — whatever the repeat mode and shuffle flag say.
pub proof fn lemma_manual_next(
    pre: StateModel,
    post: StateModel,
    response: RespModel,
    effect: Option<AudioCmdModel>,
    shutdown: bool,
)
    requires
        pre.queue.len() > 0,
        dispatch_rel(pre, CmdModel::Next, post, response, effect, shutdown),
    ensures
        post.queue_index == (pre.queue_index + 1) % (pre.queue.len() as int),
        post.is_playing == pre.is_playing,
        post.queue == pre.queue,
        response == RespModel::Okay,
        effect == Some(AudioCmdModel::Play(pre.queue[post.queue_index])),
{
}

/// Law: a manual skip backward always moves the queue index to the previous
/// slot, wrapping from the front to the back, ignoring shuffle and repeat.
pub proof fn lemma_manual_previous(
    pre: StateModel,
    post: StateModel,
    response: RespModel,
    effect: Option<AudioCmdModel>,
    shutdown: bool,
)
    requires
        pre.queue.len() > 0,
        dispatch_rel(pre, CmdModel::Previous, post, response, effect, shutdown),
    ensures
        post.queue_index == (pre.queue_index - 1 + pre.queue.len()) % (pre.queue.len() as int),
        post.is_playing == pre.is_playing,
        post.queue == pre.queue,
        response == RespModel::Okay,
        effect == Some(AudioCmdModel::Play(pre.queue[post.queue_index])),
{
}

/// Law: whatever volume a client asks for, the value forwarded to the audio
/// worker — and, through the worker, the value stored in the state — lies in
/// 0..=100, and a request already in range passes through unchanged.
pub proof fn lemma_volume_clamped(
    pre: StateModel,
    post: StateModel,
    response: RespModel,
    effect: Option<AudioCmdModel>,
    shutdown: bool,
    volume: u8,
)
    requires
        dispatch_rel(pre, CmdModel::SetVolume { volume }, post, response, effect, shutdown),
    ensures
        effect matches Some(AudioCmdModel::SetVolume(v)) && v <= 100,
        volume <= 100 ==> effect == Some(AudioCmdModel::SetVolume(volume)),
        post == pre,
{
}

/// Translates one request into at most one state mutation, at most one audio
/// command, and exactly one response, per [`dispatch_rel`]. A command that
/// needs a non-empty queue is answered with an error, and mutates nothing, on
/// an empty one. The state invariant is preserved; a manual skip never stops
/// playback.
pub fn handle_command(state: &mut PlaybackState, cmd: DaemonCommand) -> (out: CommandOutcome)
    requires
        old(state).wf(),
    ensures
        final(state).wf(),
        dispatch_rel(
            old(state)@,
            cmd@,
            final(state)@,
            out.response@,
            opt_audio_model(out.effect),
            out.shutdown,
        ),
{
    match cmd {
        DaemonCommand::Play { track } => CommandOutcome {
            response: DaemonResponse::Okay,
            effect: Some(AudioCommand::Play(track)),
            shutdown: false,
        },
        DaemonCommand::PlayQueue { tracks, start_index } => {
            if tracks.len() == 0 {
                CommandOutcome {
                    response: DaemonResponse::Error(String::from_str("Queue is empty")),
                    effect: None,
                    shutdown: false,
                }
            } else {
                let idx = if start_index < tracks.len() {
                    start_index
                } else {
                    tracks.len() - 1
                };
                let track = tracks[idx].clone();
                state.queue = tracks;
                state.queue_index = idx;
                CommandOutcome {
                    response: DaemonResponse::Okay,
                    effect: Some(AudioCommand::Play(track)),
                    shutdown: false,
                }
            }
        },
        DaemonCommand::Pause => CommandOutcome {
            response: DaemonResponse::Okay,
            effect: Some(AudioCommand::Pause),
            shutdown: false,
        },
        DaemonCommand::Resume => CommandOutcome {
            response: DaemonResponse::Okay,
            effect: Some(AudioCommand::Resume),
            shutdown: false,
        },
        DaemonCommand::Stop => CommandOutcome {
            response: DaemonResponse::Okay,
            effect: Some(AudioCommand::Stop),
            shutdown: false,
        },
        DaemonCommand::Next => {
            let n = state.queue.len();
            if n == 0 {
                CommandOutcome {
                    response: DaemonResponse::Error(String::from_str("Queue is empty")),
                    effect: None,
                    shutdown: false,
                }
            } else {
                let idx = if state.queue_index + 1 < n {
                    state.queue_index + 1
                } else {
                    0
                };
                proof {
                    if old(state).queue_index + 1 < n {
                        lemma_small_mod((old(state).queue_index + 1) as nat, n as nat);
                    } else {
                        lemma_mod_self_0(n as int);
                    }
                }
                state.queue_index = idx;
                let track = state.queue[idx].clone();
                CommandOutcome {
                    response: DaemonResponse::Okay,
                    effect: Some(AudioCommand::Play(track)),
                    shutdown: false,
                }
            }
        },
        DaemonCommand::Previous => {
            let n = state.queue.len();
            if n == 0 {
                CommandOutcome {
                    response: DaemonResponse::Error(String::from_str("Queue is empty")),
                    effect: None,
                    shutdown: false,
                }
            } else {
                let idx = if state.queue_index == 0 {
                    n - 1
                } else {
                    state.queue_index - 1
                };
                proof {
                    let i = old(state).queue_index as int;
                    let m = n as int;
                    if i == 0 {
                        lemma_small_mod((m - 1) as nat, m as nat);
                    } else {
                        lemma_mod_multiples_vanish(1, i - 1, m);
                        lemma_small_mod((i - 1) as nat, m as nat);
                    }
                }
                state.queue_index = idx;
                let track = state.queue[idx].clone();
                CommandOutcome {
                    response: DaemonResponse::Okay,
                    effect: Some(AudioCommand::Play(track)),
                    shutdown: false,
                }
            }
        },
        DaemonCommand::Seek { position } => CommandOutcome {
            response: DaemonResponse::Okay,
            effect: Some(AudioCommand::Seek(position)),
            shutdown: false,
        },
        DaemonCommand::SetVolume { volume } => {
            let v = if volume > 100 {
                100
            } else {
                volume
            };
            CommandOutcome {
                response: DaemonResponse::Okay,
                effect: Some(AudioCommand::SetVolume(v)),
                shutdown: false,
            }
        },
        DaemonCommand::SetShuffle { enabled } => {
            state.shuffle = enabled;
            CommandOutcome { response: DaemonResponse::Okay, effect: None, shutdown: false }
        },
        DaemonCommand::SetRepeat { mode } => {
            state.repeat = mode;
            CommandOutcome { response: DaemonResponse::Okay, effect: None, shutdown: false }
        },
        DaemonCommand::QueueAdd { track } => {
            let ghost tm = track@;
            state.queue.push(track);
            proof {
                assert(state@.queue =~= old(state)@.queue.push(tm));
            }
            CommandOutcome { response: DaemonResponse::Okay, effect: None, shutdown: false }
        },
        DaemonCommand::QueueClear => {
            state.queue.clear();
            state.queue_index = 0;
            proof {
                assert(state@.queue =~= Seq::<crate::models::TrackModel>::empty());
            }
            CommandOutcome { response: DaemonResponse::Okay, effect: None, shutdown: false }
        },
        DaemonCommand::GetStatus => {
            let snapshot = state.clone();
            CommandOutcome {
                response: DaemonResponse::Status(snapshot),
                effect: None,
                shutdown: false,
            }
        },
        DaemonCommand::Shutdown => CommandOutcome {
            response: DaemonResponse::Okay,
            effect: Some(AudioCommand::Stop),
            shutdown: true,
        },
    }
}

} // verus!
