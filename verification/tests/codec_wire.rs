use mixyt::codec::{decode_command, decode_response, encode_command, encode_response};
use mixyt::ipc::{DaemonCommand, DaemonResponse};
use mixyt::models::{PlaybackState, RepeatMode, Track};

fn sample_track(title: &str) -> Track {
    Track {
        id: "0f8b2c1d-3333-4444-8555-666677778888".to_string(),
        url: "https://youtu.be/abc".to_string(),
        title: title.to_string(),
        alias: Some("fav".to_string()),
        duration: 215,
        added_at: 1700000000,
        file_path: "/tmp/a.opus".to_string(),
        available: true,
    }
}

fn roundtrip_command(cmd: DaemonCommand) -> DaemonCommand {
    let line = encode_command(&cmd);
    assert!(!line.contains('\n'));
    decode_command(&line).expect("an encoded request must decode")
}

#[test]
fn command_round_trips_every_variant() {
    let cases = vec![
        DaemonCommand::Play { track: sample_track("One") },
        DaemonCommand::PlayQueue {
            tracks: vec![sample_track("One"), sample_track("Two")],
            start_index: 1,
        },
        DaemonCommand::Pause,
        DaemonCommand::Resume,
        DaemonCommand::Stop,
        DaemonCommand::Next,
        DaemonCommand::Previous,
        DaemonCommand::Seek { position: 90 },
        DaemonCommand::SetVolume { volume: 255 },
        DaemonCommand::SetShuffle { enabled: true },
        DaemonCommand::SetRepeat { mode: RepeatMode::All },
        DaemonCommand::QueueAdd { track: sample_track("Three") },
        DaemonCommand::QueueClear,
        DaemonCommand::GetStatus,
        DaemonCommand::Shutdown,
    ];
    for cmd in cases {
        let line = encode_command(&cmd);
        let back = decode_command(&line).expect("decode");
        assert_eq!(back, cmd);
    }
}

#[test]
fn command_round_trips_non_ascii_title() {
    let mut t = sample_track("Füür — 札幌 mix\t");
    t.alias = None;
    let back = roundtrip_command(DaemonCommand::Play { track: t.clone() });
    assert_eq!(back, DaemonCommand::Play { track: t });
}

#[test]
fn response_round_trips() {
    let okay = encode_response(&DaemonResponse::Okay);
    assert_eq!(decode_response(&okay), Some(DaemonResponse::Okay));

    let err = DaemonResponse::Error("Queue is empty".to_string());
    let line = encode_response(&err);
    assert_eq!(decode_response(&line), Some(err));

    let mut state = PlaybackState::new();
    state.queue = vec![sample_track("One"), sample_track("Two")];
    state.queue_index = 1;
    state.current_track = Some(sample_track("Two"));
    state.is_playing = true;
    state.volume = 35;
    state.position = 17;
    state.shuffle = true;
    state.repeat = RepeatMode::One;
    let line = encode_response(&DaemonResponse::Status(state.clone()));
    assert!(!line.contains('\n'));
    assert_eq!(decode_response(&line), Some(DaemonResponse::Status(state)));
}

#[test]
fn encoded_lines_stay_newline_free() {
    // Line framing holds even for hostile text: the encoding never emits a
    // raw newline, whatever the strings contain.
    let mut t = sample_track("line\nbreak");
    t.alias = Some("tab\tand\nmore".to_string());
    t.file_path = "/tmp/a\nb.opus".to_string();
    let line = encode_command(&DaemonCommand::QueueAdd { track: t.clone() });
    assert!(!line.contains('\n'));
    assert_eq!(decode_command(&line), Some(DaemonCommand::QueueAdd { track: t }));
}

#[test]
fn decode_rejects_malformed_lines() {
    assert_eq!(decode_command(""), None);
    assert_eq!(decode_command("Z"), None);
    assert_eq!(decode_command("K123"), None);
    assert_eq!(decode_command("hello"), None);
    assert_eq!(decode_response(""), None);
    assert_eq!(decode_response("Tjunk"), None);
}

#[test]
fn decode_rejects_trailing_garbage() {
    let mut line = encode_command(&DaemonCommand::Pause);
    assert_eq!(decode_command(&line), Some(DaemonCommand::Pause));
    line.push('0');
    assert_eq!(decode_command(&line), None);
}

#[test]
fn decode_rejects_truncated_volume() {
    assert_eq!(decode_command("Vf"), None);
}
