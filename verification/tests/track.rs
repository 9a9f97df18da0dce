use sketchybar_now_playing::track::Track;

#[test]
fn label_joins_title_and_artist_once() {
    let t = Track::from_parts(Some("Song"), Some("Band"), None, None, true).expect("track");
    assert_eq!(t.label(" - "), "Song - Band");
}

#[test]
fn label_without_artist_is_bare_title() {
    let t = Track::from_parts(Some("Trailer"), Some("  "), None, None, true).expect("track");
    assert_eq!(t.label(" - "), "Trailer");
}

#[test]
fn title_is_mandatory() {
    assert!(Track::from_parts(None, Some("Band"), None, None, true).is_none());
    assert!(Track::from_parts(Some("   "), Some("Band"), None, None, true).is_none());
}

#[test]
fn fields_are_trimmed_but_bundle_id_is_kept() {
    let t = Track::from_parts(
        Some("  Pearl Diver \t"),
        Some(" 777tv\n"),
        Some(" Album "),
        Some(" org.mozilla.firefox "),
        false,
    )
    .expect("track");
    assert_eq!(t.title, "Pearl Diver");
    assert_eq!(t.artist, "777tv");
    assert_eq!(t.album, "Album");
    assert_eq!(t.bundle_id, " org.mozilla.firefox ");
    assert!(!t.playing);
}

#[test]
fn unicode_white_space_is_trimmed() {
    let t = Track::from_parts(Some("\u{3000}Song\u{a0}"), None, None, None, true).expect("track");
    assert_eq!(t.title, "Song");
    assert_eq!(t.artist, "");
    assert_eq!(t.bundle_id, "");
}

#[test]
fn label_uses_the_given_separator() {
    let t = Track::from_parts(Some("A"), Some("B"), None, None, true).expect("track");
    assert_eq!(t.label(" | "), "A | B");
    assert_eq!(t.label(""), "AB");
}

#[test]
fn changed_is_field_inequality() {
    let a = Track::from_parts(Some("A"), Some("B"), None, None, true).expect("track");
    let b = Track::from_parts(Some("A"), Some("B"), None, None, false).expect("track");
    let c = Track::from_parts(Some("A"), Some("B"), None, None, true).expect("track");
    assert!(a.changed(&b));
    assert!(b.changed(&a));
    assert!(!a.changed(&c));
    assert!(a == c);
    assert!(a != b);
}

#[test]
fn placeholder_reads_no_player() {
    let p = Track::placeholder();
    assert_eq!(p.label(" - "), "No player available");
    assert!(!p.playing);
    assert_eq!(p.bundle_id, "");
}
