//! The request/response protocol spoken over the local socket, and the
//! commands handed to the audio worker.

use vstd::prelude::*;

verus! {

use crate::models::{PlaybackState, RepeatMode, StateModel, Track, TrackModel};

/// One fire-and-forget effect or query for the audio worker. The worker is
/// the only component that touches the audio output; everything else sends it
/// these messages. The two query variants are answered out of band by the
/// worker's caller.
#[derive(Debug, PartialEq)]
pub enum AudioCommand {
    Play(Track),
    Pause,
    Resume,
    Stop,
    SetVolume(u8),
    Seek(u64),
    CheckFinished,
    GetPosition,
}

/// The mathematical value of an [`AudioCommand`].
pub ghost enum AudioCmdModel {
    Play(TrackModel),
    Pause,
    Resume,
    Stop,
    SetVolume(u8),
    Seek(u64),
    CheckFinished,
    GetPosition,
}

impl View for AudioCommand {
    type V = AudioCmdModel;

    open spec fn view(&self) -> AudioCmdModel {
        match self {
            AudioCommand::Play(t) => AudioCmdModel::Play(t@),
            AudioCommand::Pause => AudioCmdModel::Pause,
            AudioCommand::Resume => AudioCmdModel::Resume,
            AudioCommand::Stop => AudioCmdModel::Stop,
            AudioCommand::SetVolume(v) => AudioCmdModel::SetVolume(*v),
            AudioCommand::Seek(p) => AudioCmdModel::Seek(*p),
            AudioCommand::CheckFinished => AudioCmdModel::CheckFinished,
            AudioCommand::GetPosition => AudioCmdModel::GetPosition,
        }
    }
}

/// The view of an optional audio command.
pub open spec fn opt_audio_model(e: Option<AudioCommand>) -> Option<AudioCmdModel> {
    match e {
        Some(c) => Some(c@),
        None => None,
    }
}

/// One request from a client to the daemon.
#[derive(Debug, PartialEq)]
pub enum DaemonCommand {
    Play { track: Track },
    PlayQueue { tracks: Vec<Track>, start_index: usize },
    Pause,
    Resume,
    Stop,
    Next,
    Previous,
    Seek { position: u64 },
    SetVolume { volume: u8 },
    SetShuffle { enabled: bool },
    SetRepeat { mode: RepeatMode },
    QueueAdd { track: Track },
    QueueClear,
    GetStatus,
    Shutdown,
}

/// The mathematical value of a [`DaemonCommand`].
pub ghost enum CmdModel {
    Play { track: TrackModel },
    PlayQueue { tracks: Seq<TrackModel>, start_index: int },
    Pause,
    Resume,
    Stop,
    Next,
    Previous,
    Seek { position: u64 },
    SetVolume { volume: u8 },
    SetShuffle { enabled: bool },
    SetRepeat { mode: RepeatMode },
    QueueAdd { track: TrackModel },
    QueueClear,
    GetStatus,
    Shutdown,
}

impl View for DaemonCommand {
    type V = CmdModel;

    open spec fn view(&self) -> CmdModel {
        match self {
            DaemonCommand::Play { track } => CmdModel::Play { track: track@ },
            DaemonCommand::PlayQueue { tracks, start_index } => CmdModel::PlayQueue {
                tracks: tracks@.map_values(|t: Track| t@),
                start_index: *start_index as int,
            },
            DaemonCommand::Pause => CmdModel::Pause,
            DaemonCommand::Resume => CmdModel::Resume,
            DaemonCommand::Stop => CmdModel::Stop,
            DaemonCommand::Next => CmdModel::Next,
            DaemonCommand::Previous => CmdModel::Previous,
            DaemonCommand::Seek { position } => CmdModel::Seek { position: *position },
            DaemonCommand::SetVolume { volume } => CmdModel::SetVolume { volume: *volume },
            DaemonCommand::SetShuffle { enabled } => CmdModel::SetShuffle { enabled: *enabled },
            DaemonCommand::SetRepeat { mode } => CmdModel::SetRepeat { mode: *mode },
            DaemonCommand::QueueAdd { track } => CmdModel::QueueAdd { track: track@ },
            DaemonCommand::QueueClear => CmdModel::QueueClear,
            DaemonCommand::GetStatus => CmdModel::GetStatus,
            DaemonCommand::Shutdown => CmdModel::Shutdown,
        }
    }
}

/// One reply from the daemon to a client.
#[derive(Debug, PartialEq)]
pub enum DaemonResponse {
    Okay,
    Status(PlaybackState),
    Error(String),
}

/// The mathematical value of a [`DaemonResponse`].
pub ghost enum RespModel {
    Okay,
    Status(StateModel),
    Error(Seq<char>),
}

impl View for DaemonResponse {
    type V = RespModel;

    open spec fn view(&self) -> RespModel {
        match self {
            DaemonResponse::Okay => RespModel::Okay,
            DaemonResponse::Status(s) => RespModel::Status(s@),
            DaemonResponse::Error(m) => RespModel::Error(m@),
        }
    }
}

/// A handle a client uses to reach the daemon: the filesystem path of the
/// daemon's listening socket. Connecting and exchanging messages happens
/// outside the core.
pub struct DaemonClient {
    pub socket_path: String,
}

impl DaemonClient {
    /// A client handle for the socket at the given path.
    pub fn new(socket_path: String) -> (r: Self)
        ensures
            r.socket_path == socket_path,
    {
        DaemonClient { socket_path }
    }
}

} // verus!
