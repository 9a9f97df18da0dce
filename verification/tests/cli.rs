use sketchybar_now_playing::cli::{control, get_text};
use sketchybar_now_playing::config::Config;
use sketchybar_now_playing::media::{adapter_pids, is_own_adapter_child, track_from_guard, MediaInfo};
use sketchybar_now_playing::track::Track;

#[test]
fn get_prints_label_or_placeholder() {
    let mut cfg = Config::default();
    let t = Track::from_parts(Some("Song"), Some("Band"), None, None, true).expect("track");
    assert_eq!(get_text(Some(&t), &cfg), "Song - Band");
    assert_eq!(get_text(None, &cfg), "No player available");
    cfg.hide_output = true;
    assert_eq!(get_text(None, &cfg), "");
}

#[test]
fn control_reports_failed_action() {
    assert_eq!(control(true, "play"), Ok(()));
    assert_eq!(
        control(false, "previous"),
        Err("previous failed: no active Now Playing client".to_string())
    );
}

fn info() -> MediaInfo {
    MediaInfo {
        title: Some(" Song ".to_string()),
        artist: Some("Band".to_string()),
        album: None,
        bundle_id: Some("com.spotify.client".to_string()),
        is_playing: None,
        rate_positive: None,
    }
}

#[test]
fn playing_flag_then_rate_then_paused() {
    let mut i = info();
    assert!(!track_from_guard(Some(&i)).expect("track").playing);
    i.rate_positive = Some(true);
    assert!(track_from_guard(Some(&i)).expect("track").playing);
    i.is_playing = Some(false);
    assert!(!track_from_guard(Some(&i)).expect("track").playing);
    assert_eq!(track_from_guard(Some(&i)).expect("track").title, "Song");
}

#[test]
fn no_report_or_no_title_is_idle() {
    assert!(track_from_guard(None).is_none());
    let mut i = info();
    i.title = None;
    assert!(track_from_guard(Some(&i)).is_none());
}

#[test]
fn adapter_pids_are_the_words_of_pgrep_output() {
    assert_eq!(adapter_pids("101\n202\n"), vec!["101".to_string(), "202".to_string()]);
    assert_eq!(adapter_pids("  7 \t 8\n\n9"), vec!["7".to_string(), "8".to_string(), "9".to_string()]);
    assert!(adapter_pids("").is_empty());
    assert!(adapter_pids(" \n\t ").is_empty());
}

#[test]
fn only_own_children_are_reaped() {
    assert!(is_own_adapter_child("  4242\n", "4242"));
    assert!(!is_own_adapter_child("424\n", "4242"));
    assert!(!is_own_adapter_child("1\n", "4242"));
    assert!(!is_own_adapter_child("", "4242"));
}
