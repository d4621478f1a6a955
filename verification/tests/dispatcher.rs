use mixyt::daemon::handle_request_line;
use mixyt::codec::{decode_response, encode_command};
use mixyt::dispatch::handle_command;
use mixyt::ipc::{AudioCommand, DaemonCommand, DaemonResponse};
use mixyt::models::{PlaybackState, RepeatMode, Track};

fn named_track(title: &str) -> Track {
    Track {
        id: format!("id-{title}"),
        url: format!("https://youtu.be/{title}"),
        title: title.to_string(),
        alias: None,
        duration: 60,
        added_at: 1700000001,
        file_path: format!("/tmp/{title}.opus"),
        available: true,
    }
}

fn queued_state(titles: &[&str], index: usize) -> PlaybackState {
    let mut s = PlaybackState::new();
    s.queue = titles.iter().map(|t| named_track(t)).collect();
    s.queue_index = index;
    s
}

#[test]
fn next_advances_modulo_and_never_stops() {
    // Whatever the repeat mode, a manual skip wraps and keeps playing.
    for mode in [RepeatMode::Off, RepeatMode::One, RepeatMode::All] {
        let mut s = queued_state(&["a", "b", "c"], 2);
        s.repeat = mode;
        s.is_playing = true;
        let out = handle_command(&mut s, DaemonCommand::Next);
        assert_eq!(s.queue_index, 0);
        assert!(s.is_playing);
        assert_eq!(out.response, DaemonResponse::Okay);
        assert_eq!(out.effect, Some(AudioCommand::Play(named_track("a"))));
        assert!(!out.shutdown);
    }
    let mut s = queued_state(&["a", "b", "c"], 0);
    handle_command(&mut s, DaemonCommand::Next);
    assert_eq!(s.queue_index, 1);
}

#[test]
fn previous_wraps_from_front_to_back() {
    let mut s = queued_state(&["a", "b", "c"], 0);
    s.shuffle = true;
    s.repeat = RepeatMode::One;
    let out = handle_command(&mut s, DaemonCommand::Previous);
    assert_eq!(s.queue_index, 2);
    assert_eq!(out.effect, Some(AudioCommand::Play(named_track("c"))));

    let mut s = queued_state(&["a", "b", "c"], 2);
    handle_command(&mut s, DaemonCommand::Previous);
    assert_eq!(s.queue_index, 1);
}

#[test]
fn next_and_previous_on_empty_queue_error() {
    let mut s = PlaybackState::new();
    let before = s.clone();
    let out = handle_command(&mut s, DaemonCommand::Next);
    assert_eq!(out.response, DaemonResponse::Error("Queue is empty".to_string()));
    assert_eq!(out.effect, None);
    assert_eq!(s, before);
    let out = handle_command(&mut s, DaemonCommand::Previous);
    assert_eq!(out.response, DaemonResponse::Error("Queue is empty".to_string()));
    assert_eq!(s, before);
}

#[test]
fn set_volume_clamps_before_forwarding() {
    let mut s = PlaybackState::new();
    for (asked, forwarded) in [(0u8, 0u8), (55, 55), (100, 100), (101, 100), (255, 100)] {
        let out = handle_command(&mut s, DaemonCommand::SetVolume { volume: asked });
        assert_eq!(out.response, DaemonResponse::Okay);
        assert_eq!(out.effect, Some(AudioCommand::SetVolume(forwarded)));
    }
}

#[test]
fn play_queue_with_empty_list_errors_and_keeps_state() {
    let mut s = queued_state(&["a", "b"], 1);
    s.is_playing = true;
    s.current_track = Some(named_track("b"));
    let before = s.clone();
    let out = handle_command(
        &mut s,
        DaemonCommand::PlayQueue { tracks: vec![], start_index: 0 },
    );
    assert_eq!(out.response, DaemonResponse::Error("Queue is empty".to_string()));
    assert_eq!(out.effect, None);
    assert!(!out.shutdown);
    assert_eq!(s, before);
}

#[test]
fn play_queue_installs_queue_and_clamps_start_index() {
    let mut s = PlaybackState::new();
    let tracks = vec![named_track("a"), named_track("b")];
    let out = handle_command(
        &mut s,
        DaemonCommand::PlayQueue { tracks: tracks.clone(), start_index: 9 },
    );
    assert_eq!(s.queue, tracks);
    assert_eq!(s.queue_index, 1);
    assert_eq!(out.effect, Some(AudioCommand::Play(named_track("b"))));
    assert_eq!(out.response, DaemonResponse::Okay);
}

#[test]
fn queue_add_and_clear() {
    let mut s = PlaybackState::new();
    handle_command(&mut s, DaemonCommand::QueueAdd { track: named_track("a") });
    handle_command(&mut s, DaemonCommand::QueueAdd { track: named_track("b") });
    assert_eq!(s.queue.len(), 2);
    let out = handle_command(&mut s, DaemonCommand::QueueClear);
    assert_eq!(out.response, DaemonResponse::Okay);
    assert!(s.queue.is_empty());
    assert_eq!(s.queue_index, 0);
}

#[test]
fn get_status_returns_a_full_copy() {
    let mut s = queued_state(&["a", "b"], 1);
    s.volume = 42;
    s.shuffle = true;
    let out = handle_command(&mut s, DaemonCommand::GetStatus);
    assert_eq!(out.effect, None);
    match out.response {
        DaemonResponse::Status(copy) => assert_eq!(copy, s),
        other => panic!("expected a status, got {other:?}"),
    }
}

#[test]
fn status_never_shows_index_outside_queue() {
    // Drive the state through a burst of mutations; every snapshot keeps the
    // index inside the (non-empty) queue.
    let mut s = PlaybackState::new();
    let cmds = vec![
        DaemonCommand::QueueAdd { track: named_track("a") },
        DaemonCommand::Next,
        DaemonCommand::QueueAdd { track: named_track("b") },
        DaemonCommand::Previous,
        DaemonCommand::PlayQueue { tracks: vec![named_track("c")], start_index: 5 },
        DaemonCommand::Next,
        DaemonCommand::QueueClear,
        DaemonCommand::Previous,
    ];
    for cmd in cmds {
        handle_command(&mut s, cmd);
        let out = handle_command(&mut s, DaemonCommand::GetStatus);
        match out.response {
            DaemonResponse::Status(copy) => {
                if !copy.queue.is_empty() {
                    assert!(copy.queue_index < copy.queue.len());
                } else {
                    assert_eq!(copy.queue_index, 0);
                }
            },
            other => panic!("expected a status, got {other:?}"),
        }
    }
}

#[test]
fn pause_resume_stop_seek_are_forwarded() {
    let mut s = PlaybackState::new();
    let before = s.clone();
    assert_eq!(
        handle_command(&mut s, DaemonCommand::Pause).effect,
        Some(AudioCommand::Pause)
    );
    assert_eq!(
        handle_command(&mut s, DaemonCommand::Resume).effect,
        Some(AudioCommand::Resume)
    );
    assert_eq!(
        handle_command(&mut s, DaemonCommand::Stop).effect,
        Some(AudioCommand::Stop)
    );
    assert_eq!(
        handle_command(&mut s, DaemonCommand::Seek { position: 30 }).effect,
        Some(AudioCommand::Seek(30))
    );
    assert_eq!(s, before);
}

#[test]
fn shutdown_flags_and_stops() {
    let mut s = PlaybackState::new();
    let out = handle_command(&mut s, DaemonCommand::Shutdown);
    assert!(out.shutdown);
    assert_eq!(out.effect, Some(AudioCommand::Stop));
    assert_eq!(out.response, DaemonResponse::Okay);
}

#[test]
fn request_line_serves_encoded_commands() {
    let mut s = PlaybackState::new();
    let line = encode_command(&DaemonCommand::SetShuffle { enabled: true });
    let served = handle_request_line(&mut s, &line);
    assert!(s.shuffle);
    assert_eq!(served.outcome.response, DaemonResponse::Okay);
    assert_eq!(decode_response(&served.response_line), Some(DaemonResponse::Okay));
}

#[test]
fn request_line_round_trips_a_status_snapshot() {
    let mut s = queued_state(&["a", "b", "c"], 2);
    s.is_playing = true;
    s.current_track = Some(named_track("c"));
    let expected = s.clone();
    let line = encode_command(&DaemonCommand::GetStatus);
    let served = handle_request_line(&mut s, &line);
    assert_eq!(s, expected);
    match decode_response(&served.response_line) {
        Some(DaemonResponse::Status(copy)) => assert_eq!(copy, expected),
        other => panic!("expected a status, got {other:?}"),
    }
}

#[test]
fn request_line_answers_garbage_with_an_error() {
    let mut s = PlaybackState::new();
    let before = s.clone();
    let served = handle_request_line(&mut s, "not a request");
    assert_eq!(s, before);
    assert_eq!(served.outcome.effect, None);
    assert!(!served.outcome.shutdown);
    assert_eq!(
        decode_response(&served.response_line),
        Some(DaemonResponse::Error("Malformed request".to_string()))
    );
}
