use mixyt::monitor::{auto_advance, record_position, should_poll};
use mixyt::models::{PlaybackState, RepeatMode, Track};
use mixyt::worker::{apply_audio_event, AudioEvent};

fn plain_track(title: &str) -> Track {
    Track {
        id: format!("id-{title}"),
        url: format!("https://youtu.be/{title}"),
        title: title.to_string(),
        alias: None,
        duration: 90,
        added_at: 1700000002,
        file_path: format!("/tmp/{title}.opus"),
        available: true,
    }
}

fn playing_state(titles: &[&str], index: usize) -> PlaybackState {
    let mut s = PlaybackState::new();
    s.queue = titles.iter().map(|t| plain_track(t)).collect();
    s.queue_index = index;
    s.current_track = Some(plain_track(titles[index]));
    s.is_playing = true;
    s
}

/// One finished track: advance, and if a track came back, the worker reports
/// it started.
fn finish_one(s: &mut PlaybackState) -> Option<Track> {
    let next = auto_advance(s, 0);
    if let Some(t) = &next {
        apply_audio_event(s, AudioEvent::PlayStarted(t.clone()));
    }
    next
}

#[test]
fn ordered_queue_plays_through_and_stops_at_last_index() {
    // N consecutive automatic advances from index 0, shuffle off, repeat off:
    // playback ends stopped with the index left at N-1.
    let n = 5;
    let titles: Vec<String> = (0..n).map(|i| format!("t{i}")).collect();
    let title_refs: Vec<&str> = titles.iter().map(|s| s.as_str()).collect();
    let mut s = playing_state(&title_refs, 0);
    for k in 1..n {
        let next = finish_one(&mut s).expect("mid-queue advances keep playing");
        assert_eq!(next.title, format!("t{k}"));
        assert_eq!(s.queue_index, k);
        assert!(s.is_playing);
    }
    assert_eq!(finish_one(&mut s), None);
    assert!(!s.is_playing);
    assert_eq!(s.current_track, None);
    assert_eq!(s.queue_index, n - 1);
}

#[test]
fn three_track_scenario_runs_one_two_then_stops() {
    // queue=[A,B,C], index 0, repeat off, shuffle off: finish events land on
    // 1, 2, then stop with nothing current and the index still at 2.
    let mut s = playing_state(&["A", "B", "C"], 0);
    assert_eq!(finish_one(&mut s).map(|t| t.title), Some("B".to_string()));
    assert_eq!(s.queue_index, 1);
    assert_eq!(finish_one(&mut s).map(|t| t.title), Some("C".to_string()));
    assert_eq!(s.queue_index, 2);
    assert_eq!(finish_one(&mut s), None);
    assert_eq!(s.current_track, None);
    assert!(!s.is_playing);
    assert_eq!(s.queue_index, 2);
}

#[test]
fn repeat_one_replays_the_same_track() {
    let mut s = playing_state(&["A", "B"], 1);
    s.repeat = RepeatMode::One;
    let before = s.clone();
    let next = auto_advance(&mut s, 7);
    assert_eq!(next, Some(plain_track("B")));
    assert_eq!(s, before);
}

#[test]
fn repeat_all_wraps_to_the_start() {
    let mut s = playing_state(&["A", "B"], 1);
    s.repeat = RepeatMode::All;
    let next = auto_advance(&mut s, 0);
    assert_eq!(next.map(|t| t.title), Some("A".to_string()));
    assert_eq!(s.queue_index, 0);
}

#[test]
fn shuffle_picks_the_drawn_index() {
    let mut s = playing_state(&["A", "B", "C"], 0);
    s.shuffle = true;
    let next = auto_advance(&mut s, 8);
    assert_eq!(s.queue_index, 2);
    assert_eq!(next.map(|t| t.title), Some("C".to_string()));
}

#[test]
fn finish_with_empty_queue_just_stops() {
    let mut s = PlaybackState::new();
    s.current_track = Some(plain_track("solo"));
    s.is_playing = true;
    s.position = 33;
    assert_eq!(auto_advance(&mut s, 0), None);
    assert!(!s.is_playing);
    assert_eq!(s.current_track, None);
    assert_eq!(s.position, 0);
}

#[test]
fn monitor_polls_only_while_playing() {
    let mut s = PlaybackState::new();
    assert!(!should_poll(&s));
    s.current_track = Some(plain_track("A"));
    assert!(!should_poll(&s));
    s.is_playing = true;
    assert!(should_poll(&s));
    record_position(&mut s, 12);
    assert_eq!(s.position, 12);
}

#[test]
fn worker_events_mirror_device_state() {
    let mut s = PlaybackState::new();
    apply_audio_event(&mut s, AudioEvent::PlayStarted(plain_track("A")));
    assert_eq!(s.current_track, Some(plain_track("A")));
    assert!(s.is_playing);
    assert_eq!(s.position, 0);

    apply_audio_event(&mut s, AudioEvent::SeekDone(44));
    assert_eq!(s.position, 44);
    apply_audio_event(&mut s, AudioEvent::SeekFailed);
    assert_eq!(s.position, 44);

    apply_audio_event(&mut s, AudioEvent::Paused);
    assert!(!s.is_playing);
    apply_audio_event(&mut s, AudioEvent::Resumed);
    assert!(s.is_playing);

    apply_audio_event(&mut s, AudioEvent::PlayFailed);
    assert!(!s.is_playing);
    assert_eq!(s.current_track, Some(plain_track("A")));

    apply_audio_event(&mut s, AudioEvent::VolumeSet(250));
    assert_eq!(s.volume, 100);
    apply_audio_event(&mut s, AudioEvent::VolumeSet(31));
    assert_eq!(s.volume, 31);

    apply_audio_event(&mut s, AudioEvent::Stopped);
    assert_eq!(s.current_track, None);
    assert!(!s.is_playing);
    assert_eq!(s.position, 0);
}
