use sketchybar_now_playing::config::{insert_override, Config, ConfigFile};

fn empty_file() -> ConfigFile {
    ConfigFile {
        separator: None,
        hide_output: None,
        max_chars: None,
        static_icon: None,
        icons: Vec::new(),
    }
}

#[test]
fn defaults_match_documentation() {
    let cfg = Config::default();
    assert_eq!(cfg.separator, " - ");
    assert!(!cfg.hide_output);
    assert_eq!(cfg.max_chars, 20);
    assert!(cfg.icon_overrides.is_empty());
    assert!(cfg.static_icon.is_none());
}

#[test]
fn empty_file_gives_defaults() {
    let cfg = Config::from_file(empty_file());
    assert_eq!(cfg.separator, " - ");
    assert!(!cfg.hide_output);
    assert_eq!(cfg.max_chars, 20);
    assert!(cfg.static_icon.is_none());
}

#[test]
fn file_fields_replace_defaults() {
    let mut file = empty_file();
    file.separator = Some(" · ".to_string());
    file.hide_output = Some(true);
    file.max_chars = Some(40);
    file.static_icon = Some("*".to_string());
    file.icons = vec![("com.spotify.client".to_string(), "S".to_string())];
    let cfg = Config::from_file(file);
    assert_eq!(cfg.separator, " · ");
    assert!(cfg.hide_output);
    assert_eq!(cfg.max_chars, 40);
    assert_eq!(cfg.static_icon.as_deref(), Some("*"));
    assert_eq!(cfg.icon_overrides.len(), 1);
}

#[test]
fn empty_static_icon_counts_as_unset() {
    let mut file = empty_file();
    file.static_icon = Some(String::new());
    let cfg = Config::from_file(file);
    assert!(cfg.static_icon.is_none());
}

#[test]
fn later_icon_entry_for_a_key_wins() {
    let mut file = empty_file();
    file.icons = vec![
        ("a".to_string(), "1".to_string()),
        ("b".to_string(), "2".to_string()),
        ("a".to_string(), "3".to_string()),
    ];
    let cfg = Config::from_file(file);
    assert_eq!(
        cfg.icon_overrides,
        vec![("a".to_string(), "3".to_string()), ("b".to_string(), "2".to_string())]
    );
}

#[test]
fn insert_override_sets_or_adds() {
    let mut ov = Vec::new();
    insert_override(&mut ov, "k".to_string(), "x".to_string());
    insert_override(&mut ov, "j".to_string(), "y".to_string());
    insert_override(&mut ov, "k".to_string(), "z".to_string());
    assert_eq!(ov, vec![("k".to_string(), "z".to_string()), ("j".to_string(), "y".to_string())]);
}
