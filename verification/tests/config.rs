//! The settings.
use koyubi::config::Config;
use koyubi::InputMode;


#[test]
fn default_values() {
    let config = Config::default();
    assert!(config.sands_enabled);
    assert!(config.emacs_bindings_enabled);
    assert!(config.system_dict_paths.is_empty());
    assert!(config.user_dict_path.is_none());
    assert_eq!(config.toggle_kana, 'q');
    assert_eq!(config.enter_ascii, 'l');
    assert_eq!(config.enter_zenkaku, 'L');
    assert_eq!(config.prev_candidate, 'x');
    assert_eq!(config.initial_mode, InputMode::Ascii);
}

#[test]
fn empty_string_returns_default() {
    let config = Config::from_str("");
    assert!(config.sands_enabled);
    assert_eq!(config.toggle_kana, 'q');
    assert_eq!(config.initial_mode, InputMode::Ascii);
}

#[test]
fn partial_toml() {
    let config = Config::from_str("sands_enabled = false");
    assert!(!config.sands_enabled);
    // 他はデフォルト
    assert!(config.emacs_bindings_enabled);
    assert_eq!(config.toggle_kana, 'q');
}

#[test]
fn full_toml() {
    let toml = r#"
sands_enabled = false
emacs_bindings_enabled = false
system_dict_paths = ["/path/to/SKK-JISYO.L", "/path/to/SKK-JISYO.M"]
user_dict_path = "/path/to/user-dict.skk"
toggle_kana = "z"
enter_ascii = ";"
enter_zenkaku = ":"
prev_candidate = "b"
initial_mode = "hiragana"
"#;
    let config = Config::from_str(toml);
    assert!(!config.sands_enabled);
    assert!(!config.emacs_bindings_enabled);
    assert_eq!(config.system_dict_paths, vec![
        "/path/to/SKK-JISYO.L",
        "/path/to/SKK-JISYO.M",
    ]);
    assert_eq!(config.user_dict_path.as_deref(), Some("/path/to/user-dict.skk"));
    assert_eq!(config.toggle_kana, 'z');
    assert_eq!(config.enter_ascii, ';');
    assert_eq!(config.enter_zenkaku, ':');
    assert_eq!(config.prev_candidate, 'b');
    assert_eq!(config.initial_mode, InputMode::Hiragana);
}

#[test]
fn invalid_toml_returns_default() {
    let config = Config::from_str("this is not valid toml {{{}}}");
    assert!(config.sands_enabled);
    assert_eq!(config.toggle_kana, 'q');
}

#[test]
fn initial_mode_variants() {
    for (toml_val, expected) in [
        ("ascii", InputMode::Ascii),
        ("hiragana", InputMode::Hiragana),
        ("katakana", InputMode::Katakana),
        ("hankaku_katakana", InputMode::HankakuKatakana),
        ("zenkaku_ascii", InputMode::ZenkakuAscii),
    ] {
        let toml = format!("initial_mode = \"{}\"", toml_val);
        let config = Config::from_str(&toml);
        assert_eq!(config.initial_mode, expected, "failed for {}", toml_val);
    }
}

#[test]
fn dict_paths_empty_default() {
    let config = Config::from_str("system_dict_paths = []");
    assert!(config.system_dict_paths.is_empty());
}

#[test]
fn unknown_fields_ignored() {
    let config = Config::from_str("unknown_field = 42\nsands_enabled = false");
    assert!(!config.sands_enabled);
}

#[test]
fn unknown_tables_are_ignored_whatever_they_hold() {
    for unknown in [
        "[other]\n\"$__toml_private_datetime\" = \"soon\"",
        "[other]\n\"$__toml_private_datetime\" = 1",
        "other = { \"$__toml_private_datetime\" = \"1979-05-27\" }",
        "[other.\"$__toml_private_datetime\".inner]",
        "other = 1979-05-27T07:32:00Z",
        "other = 99999999999999999999",
    ] {
        let config = Config::from_str(&format!("sands_enabled = false\n{}\n", unknown));
        assert!(!config.sands_enabled, "{}", unknown);
    }
}

#[test]
fn unreadable_numbers_give_the_defaults() {
    for unreadable in [
        "other = 1e999",
        "other = 9999999999999999999999999999999999999999999",
        "[other]\ndeep = [{ n = -1e999 }]",
    ] {
        let config = Config::from_str(&format!("sands_enabled = false\n{}\n", unreadable));
        assert!(config.sands_enabled, "{}", unreadable);
    }
}
