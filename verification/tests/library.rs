use mixyt::config::Config;
use mixyt::ipc::DaemonClient;
use mixyt::daemon::Daemon;
use mixyt::download::Downloader;
use mixyt::models::{PlaybackState, RepeatMode, Track};
use mixyt::search::find_track;
use mixyt::text::{format_duration, parse_time};

fn track_named(title: &str, alias: Option<&str>) -> Track {
    Track {
        id: format!("id-{title}"),
        url: format!("https://youtu.be/{title}"),
        title: title.to_string(),
        alias: alias.map(|a| a.to_string()),
        duration: 185,
        added_at: 1700000003,
        file_path: format!("/tmp/{title}.opus"),
        available: true,
    }
}

#[test]
fn format_duration_renders_minutes_and_seconds() {
    assert_eq!(format_duration(0), "0:00");
    assert_eq!(format_duration(5), "0:05");
    assert_eq!(format_duration(65), "1:05");
    assert_eq!(format_duration(185), "3:05");
    assert_eq!(format_duration(3600), "60:00");
}

#[test]
fn parse_time_reads_seconds_and_minute_colon_second() {
    assert_eq!(parse_time("90"), Ok(90));
    assert_eq!(parse_time("1:30"), Ok(90));
    assert_eq!(parse_time("0:05"), Ok(5));
    assert_eq!(parse_time("10:00"), Ok(600));
    assert!(parse_time("").is_err());
    assert!(parse_time("1:2:3").is_err());
    assert!(parse_time("abc").is_err());
    assert!(parse_time("1:xx").is_err());
    assert!(parse_time("99999999999999999999999").is_err());
}

#[test]
fn track_formatting_and_display_name() {
    let t = track_named("Morning Song", Some("wakeup"));
    assert_eq!(t.display_name(), "wakeup");
    let u = track_named("Morning Song", None);
    assert_eq!(u.display_name(), "Morning Song");
    assert_eq!(t.format_duration(), "3:05");
}

#[test]
fn new_track_gets_fresh_identity() {
    let t = Track::new(
        "https://youtu.be/x".to_string(),
        "X".to_string(),
        10,
        "/tmp/x.opus".to_string(),
    );
    assert_eq!(t.id.chars().count(), 36);
    assert!(t.available);
    assert_eq!(t.alias, None);
    let u = Track::new(
        "https://youtu.be/x".to_string(),
        "X".to_string(),
        10,
        "/tmp/x.opus".to_string(),
    );
    assert_ne!(t.id, u.id);
}

#[test]
fn playback_state_starts_idle_at_volume_eighty() {
    let s = PlaybackState::new();
    assert_eq!(s.current_track, None);
    assert!(s.queue.is_empty());
    assert_eq!(s.queue_index, 0);
    assert!(!s.is_playing);
    assert_eq!(s.volume, 80);
    assert_eq!(s.position, 0);
    assert!(!s.shuffle);
    assert_eq!(s.repeat, RepeatMode::Off);
}

#[test]
fn repeat_mode_cycles_and_labels() {
    assert_eq!(RepeatMode::Off.cycled(), RepeatMode::All);
    assert_eq!(RepeatMode::All.cycled(), RepeatMode::One);
    assert_eq!(RepeatMode::One.cycled(), RepeatMode::Off);
    assert_eq!(RepeatMode::Off.label(), "off");
    assert_eq!(RepeatMode::One.label(), "one");
    assert_eq!(RepeatMode::All.label(), "all");
    assert_eq!(RepeatMode::default(), RepeatMode::Off);
}

#[test]
fn config_paths_hang_off_the_storage_path() {
    let mut c = Config::default();
    c.storage.path = "/home/someone/.mixyt".to_string();
    assert_eq!(c.data_dir().as_str(), "/home/someone/.mixyt");
    assert_eq!(c.audio_dir(), "/home/someone/.mixyt/audio");
    assert_eq!(c.db_path(), "/home/someone/.mixyt/mixyt.db");
    assert_eq!(c.socket_path(), "/home/someone/.mixyt/mixyt.sock");
    assert_eq!(c.pid_path(), "/home/someone/.mixyt/mixyt.pid");
    assert_eq!(c.audio.format, "mp3");
    assert_eq!(c.audio.quality, "best");
    assert!(c.daemon.auto_start);
    assert_eq!(c.playback.default_volume, 80);
    assert!(Config::config_path().ends_with("/config.toml"));
}

#[test]
fn daemon_and_client_handles_keep_their_configuration() {
    let mut c = Config::default();
    c.storage.path = "/data".to_string();
    let d = Daemon::new(c.clone()).expect("constructing the daemon");
    assert_eq!(d.config.storage.path, "/data");
    let dl = Downloader::new(c.clone());
    assert_eq!(dl.audio_dir(), "/data/audio");
    let client = DaemonClient::new(c.socket_path());
    assert_eq!(client.socket_path, "/data/mixyt.sock");
}

#[test]
fn find_track_prefers_exact_alias_then_title_case_folded() {
    let tracks = vec![
        track_named("Evening Calm", None),
        track_named("Other", Some("hello world")),
    ];
    // The alias "hello world" is an exact match for the query.
    assert_eq!(find_track(&tracks, "hello world"), Some(1));
    // Case-folded title match: relies on real case folding, so "EVENING CALM"
    // still finds the first track by title.
    assert_eq!(find_track(&tracks, "EVENING CALM"), Some(0));
}

#[test]
fn find_track_falls_back_to_best_fuzzy_match() {
    let tracks = vec![
        track_named("Rainy Afternoon", None),
        track_named("Morning Jazz Session", None),
        track_named("Night Drive", None),
    ];
    assert_eq!(find_track(&tracks, "jazz"), Some(1));
    assert_eq!(find_track(&tracks, "zzzqqq"), None);
    assert_eq!(find_track(&vec![], "anything"), None);
}
