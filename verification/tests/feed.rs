use sketchybar_now_playing::feed::{snapshot_changed, ChangeFeed};
use sketchybar_now_playing::track::Track;

fn track(title: &str, playing: bool) -> Track {
    Track::from_parts(Some(title), Some("Band"), None, None, playing).expect("track")
}

#[test]
fn idle_to_idle_is_no_change() {
    assert!(!snapshot_changed(None, None));
    let t = track("A", true);
    assert!(snapshot_changed(None, Some(&t)));
    assert!(snapshot_changed(Some(&t), None));
    assert!(!snapshot_changed(Some(&t), Some(&track("A", true))));
    assert!(snapshot_changed(Some(&t), Some(&track("A", false))));
}

#[test]
fn feed_emits_only_real_changes() {
    let mut feed = ChangeFeed::new(None);
    let events = vec![
        None,
        Some(track("A", true)),
        Some(track("A", true)),
        Some(track("A", false)),
        Some(track("B", false)),
        Some(track("B", false)),
        None,
        None,
    ];
    let mut told = Vec::new();
    for e in events {
        let copy = e.clone();
        if feed.observe(e) {
            told.push(copy);
        }
    }
    assert_eq!(
        told,
        vec![
            Some(track("A", true)),
            Some(track("A", false)),
            Some(track("B", false)),
            None,
        ]
    );
    assert!(feed.last().is_none());
}

#[test]
fn feed_started_from_initial_snapshot() {
    let mut feed = ChangeFeed::new(Some(track("A", true)));
    assert!(!feed.observe(Some(track("A", true))));
    assert!(feed.observe(Some(track("C", true))));
    assert!(!feed.observe(Some(track("C", true))));
    assert_eq!(feed.last().map(|t| t.title.clone()), Some("C".to_string()));
}
