use sketchybar_now_playing::config::Config;
use sketchybar_now_playing::icons::{
    ICON_DEFAULT, ICON_NEXT, ICON_PAUSE, ICON_PLAY, ICON_PREV, ICON_SPOTIFY,
};
use sketchybar_now_playing::sketchybar::{
    notify_args, push_set, push_set_control, set_with_controls_args, trigger_args,
};
use sketchybar_now_playing::track::Track;

fn song() -> Track {
    Track::from_parts(
        Some("Pearl Diver"),
        Some("777tv"),
        Some("Album"),
        Some("com.spotify.client"),
        true,
    )
    .expect("track")
}

fn strs(v: &[&str]) -> Vec<String> {
    v.iter().map(|s| s.to_string()).collect()
}

#[test]
fn trigger_carries_every_field_as_its_own_argument() {
    let cfg = Config::default();
    let t = song();
    let args = trigger_args("now_playing_change", Some(&t), &cfg);
    let expected = vec![
        "--trigger".to_string(),
        "now_playing_change".to_string(),
        "TITLE=Pearl Diver".to_string(),
        "ARTIST=777tv".to_string(),
        "ALBUM=Album".to_string(),
        "BUNDLE=com.spotify.client".to_string(),
        "PLAYING=true".to_string(),
        "LABEL=Pearl Diver - 777tv".to_string(),
        format!("ICON={ICON_SPOTIFY}"),
        format!("PREV_ICON={ICON_PREV}"),
        format!("TOGGLE_ICON={ICON_PAUSE}"),
        format!("NEXT_ICON={ICON_NEXT}"),
    ];
    assert_eq!(args, expected);
}

#[test]
fn idle_trigger_renders_the_placeholder() {
    let cfg = Config::default();
    let args = trigger_args("ev", None, &cfg);
    assert_eq!(args.len(), 12);
    assert_eq!(args[2], "TITLE=No player available");
    assert_eq!(args[6], "PLAYING=false");
    assert_eq!(args[7], "LABEL=No player available");
    assert_eq!(args[8], format!("ICON={ICON_DEFAULT}"));
    assert_eq!(args[10], format!("TOGGLE_ICON={ICON_PLAY}"));
}

#[test]
fn hostile_title_stays_one_argument() {
    let cfg = Config::default();
    let t = Track::from_parts(Some("x; rm -rf / --set"), None, None, None, false).expect("track");
    let args = trigger_args("ev", Some(&t), &cfg);
    assert_eq!(args.len(), 12);
    assert_eq!(args[2], "TITLE=x; rm -rf / --set");
}

#[test]
fn static_icon_wins_over_everything() {
    let mut cfg = Config::default();
    cfg.static_icon = Some("*".to_string());
    cfg.icon_overrides = vec![("com.spotify.client".to_string(), "S".to_string())];
    let t = song();
    let args = trigger_args("ev", Some(&t), &cfg);
    assert_eq!(args[8], "ICON=*");
}

#[test]
fn main_item_set_arguments() {
    let cfg = Config::default();
    let t = song();
    let mut cmd = Vec::new();
    push_set(&mut cmd, "now_playing", Some(&t), &cfg);
    assert_eq!(
        cmd,
        vec![
            "--set".to_string(),
            "now_playing".to_string(),
            "label=Pearl Diver - 777tv".to_string(),
            format!("icon={ICON_SPOTIFY}"),
            "scroll_texts=on".to_string(),
            "drawing=on".to_string(),
        ]
    );
}

#[test]
fn paused_main_item_does_not_scroll() {
    let cfg = Config::default();
    let t = Track::from_parts(Some("A"), None, None, None, false).expect("track");
    let mut cmd = Vec::new();
    push_set(&mut cmd, "now_playing", Some(&t), &cfg);
    assert_eq!(cmd[4], "scroll_texts=off");
}

#[test]
fn control_items_by_suffix() {
    let cfg = Config::default();
    let t = song();
    let mut cmd = Vec::new();
    push_set(&mut cmd, "np.sep", Some(&t), &cfg);
    assert_eq!(cmd, strs(&["--set", "np.sep", "label=|", "icon.drawing=off", "drawing=on"]));

    let mut cmd = Vec::new();
    push_set(&mut cmd, "np.prev", Some(&t), &cfg);
    assert_eq!(
        cmd,
        vec![
            "--set".to_string(),
            "np.prev".to_string(),
            format!("icon={ICON_PREV}"),
            "label.drawing=off".to_string(),
            "drawing=on".to_string(),
        ]
    );

    let mut cmd = Vec::new();
    push_set_control(&mut cmd, "np.toggle", ".toggle", None);
    assert_eq!(cmd[2], format!("icon={ICON_PLAY}"));

    let mut cmd = Vec::new();
    push_set_control(&mut cmd, "np.toggle", ".toggle", Some(&t));
    assert_eq!(cmd[2], format!("icon={ICON_PAUSE}"));

    let mut cmd = Vec::new();
    push_set_control(&mut cmd, "np.next", ".next", Some(&t));
    assert_eq!(cmd[2], format!("icon={ICON_NEXT}"));
}

#[test]
fn set_with_controls_covers_the_whole_pill() {
    let cfg = Config::default();
    let t = song();
    let args = set_with_controls_args("now_playing", Some(&t), &cfg);
    assert_eq!(args.len(), 6 + 4 * 5);
    assert_eq!(args[1], "now_playing");
    assert_eq!(args[7], "now_playing.sep");
    assert_eq!(args[12], "now_playing.prev");
    assert_eq!(args[17], "now_playing.toggle");
    assert_eq!(args[22], "now_playing.next");
    assert_eq!(args[args.len() - 1], "drawing=on");
}

#[test]
fn any_sibling_sets_the_same_pill() {
    let cfg = Config::default();
    let t = song();
    let whole = set_with_controls_args("now_playing", Some(&t), &cfg);
    for sibling in ["now_playing.sep", "now_playing.prev", "now_playing.toggle", "now_playing.next"] {
        assert_eq!(set_with_controls_args(sibling, Some(&t), &cfg), whole);
    }
}

#[test]
fn empty_fixed_glyph_falls_back_to_overrides() {
    let mut cfg = Config::default();
    cfg.static_icon = Some(String::new());
    let t = song();
    let args = trigger_args("ev", Some(&t), &cfg);
    assert_eq!(args[8], format!("ICON={ICON_SPOTIFY}"));
    let mut cmd = Vec::new();
    push_set(&mut cmd, "now_playing", Some(&t), &cfg);
    assert_eq!(cmd[3], format!("icon={ICON_SPOTIFY}"));
    cfg.icon_overrides = vec![("spotify".to_string(), "S".to_string())];
    let args = trigger_args("ev", Some(&t), &cfg);
    assert_eq!(args[8], "ICON=S");
}

#[test]
fn notify_chooses_set_or_trigger() {
    let cfg = Config::default();
    let t = song();
    assert_eq!(
        notify_args("ev", None, Some(&t), &cfg),
        trigger_args("ev", Some(&t), &cfg)
    );
    assert_eq!(
        notify_args("ev", Some("now_playing"), Some(&t), &cfg),
        set_with_controls_args("now_playing", Some(&t), &cfg)
    );
}
