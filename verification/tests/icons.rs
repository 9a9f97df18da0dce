use sketchybar_now_playing::icons::{
    icon_for, icon_for_with_overrides, toggle_icon, ICON_BROWSER, ICON_DEFAULT, ICON_MUSIC,
    ICON_PAUSE, ICON_PLAY, ICON_SPOTIFY,
};

#[test]
fn known_players_map() {
    assert_eq!(icon_for("com.spotify.client"), ICON_SPOTIFY);
    assert_eq!(icon_for("com.apple.Safari"), ICON_BROWSER);
    assert_eq!(icon_for("com.apple.Music"), ICON_MUSIC);
    assert_eq!(icon_for("com.unknown.app"), ICON_DEFAULT);
}

#[test]
fn toggle_shows_pause_while_playing() {
    assert_eq!(toggle_icon(true), ICON_PAUSE);
    assert_eq!(toggle_icon(false), ICON_PLAY);
}

#[test]
fn every_browser_gets_the_browser_glyph() {
    for id in [
        "com.apple.Safari",
        "com.google.Chrome",
        "org.mozilla.firefox",
        "company.thebrowser.Browser",
        "com.brave.Browser",
        "com.microsoft.edgemac",
        "com.mighty.app",
        "org.chromium.Chromium",
    ] {
        assert_eq!(icon_for(id), ICON_BROWSER);
    }
    assert_eq!(icon_for("com.apple.iTunes"), ICON_MUSIC);
    assert_eq!(icon_for("com.apple.safari"), ICON_DEFAULT);
    assert_eq!(icon_for(""), ICON_DEFAULT);
}

fn pairs(entries: &[(&str, &str)]) -> Vec<(String, String)> {
    entries.iter().map(|(k, v)| (k.to_string(), v.to_string())).collect()
}

#[test]
fn exact_override_wins_over_built_in() {
    let ov = pairs(&[("com.spotify.client", "S")]);
    assert_eq!(icon_for_with_overrides(&ov, "com.spotify.client"), "S");
}

#[test]
fn exact_override_wins_over_partial_match() {
    let ov = pairs(&[("spotify", "P"), ("com.spotify.client", "E")]);
    assert_eq!(icon_for_with_overrides(&ov, "com.spotify.client"), "E");
}

#[test]
fn partial_override_matches_inside_bundle_id() {
    let ov = pairs(&[("firefox", "F")]);
    assert_eq!(icon_for_with_overrides(&ov, "org.mozilla.firefox"), "F");
    assert_eq!(icon_for_with_overrides(&ov, "com.google.Chrome"), ICON_BROWSER);
}

#[test]
fn empty_override_key_never_matches_partially() {
    let ov = pairs(&[("", "X")]);
    assert_eq!(icon_for_with_overrides(&ov, "com.unknown.app"), ICON_DEFAULT);
    assert_eq!(icon_for_with_overrides(&ov, ""), "X");
}

#[test]
fn no_overrides_falls_back_to_built_in() {
    let ov: Vec<(String, String)> = Vec::new();
    assert_eq!(icon_for_with_overrides(&ov, "com.spotify.client"), ICON_SPOTIFY);
}
