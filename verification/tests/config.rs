use amusing::config::{
    theme_from, CliOptions, Config, ConfigError, DEFAULT_CONFIG_DIR, DEFAULT_CONFIG_FILE, DEFAULT_PORT,
    DEFAULT_SEEK_STEP, DEFAULT_SPEED_STEP, DEFAULT_VOLUME_STEP,
};
use amusing::model::cover_art::CoverArtState;
use amusing::json::Json;
use amusing::model::keybind::{char_key, control_char_key, Binding, KeyEvent, Keybind, KeybindNode};

fn strings(list: &[&str]) -> Vec<String> {
    list.iter().map(|s| s.to_string()).collect()
}

fn terminal(keybind: &Keybind, events: &[KeyEvent]) -> Option<Binding> {
    match keybind.translate(events) {
        Some(KeybindNode::Terminal(binding)) => Some(*binding),
        _ => None,
    }
}

fn table(pairs: Vec<(&str, Json)>) -> Vec<(String, Json)> {
    pairs.into_iter().map(|(k, v)| (k.to_string(), v)).collect()
}

#[test]
fn default_config() {
    let config = Config::default();
    assert_eq!(config.port, DEFAULT_PORT);
    assert_eq!(config.seek_step, DEFAULT_SEEK_STEP);
    assert_eq!(config.volume_step, DEFAULT_VOLUME_STEP);
    assert_eq!(config.speed_step, DEFAULT_SPEED_STEP);
    assert_eq!(config.library_group_by, strings(&["albumartist", "album"]));
    assert_eq!(config.theme, vec![]);
    assert_eq!(config.keybind, Keybind::default());
    assert_eq!(DEFAULT_CONFIG_DIR, "amusing");
    assert_eq!(DEFAULT_CONFIG_FILE, "amusing.toml");
}

#[test]
fn empty_file_gives_the_default() {
    let config = Config::try_from_file("").unwrap();
    assert_eq!(config.port, DEFAULT_PORT);
    assert_eq!(config.keybind, Keybind::default());
}

#[test]
fn settings_are_read() {
    let config = Config::try_from_file(
        "port = 4000\nseek_step = -7\nvolume_step = 3\nspeed_step = -20\n\
         library_group_by = [\"genre\", 3, \"album\"]\n",
    )
    .unwrap();
    assert_eq!(config.port, 4000);
    assert_eq!(config.seek_step, -7);
    assert_eq!(config.volume_step, 3);
    assert_eq!(config.speed_step, -20);
    assert_eq!(config.library_group_by, strings(&["genre", "album"]));
}

#[test]
fn numbers_have_to_fit() {
    assert_eq!(Config::try_from_file("port = 65535").unwrap().port, 65535);
    assert_eq!(Config::try_from_file("port = 65536").unwrap_err(), ConfigError::OutOfRange);
    assert_eq!(Config::try_from_file("port = -1").unwrap_err(), ConfigError::OutOfRange);
    assert_eq!(Config::try_from_file("volume_step = 127").unwrap().volume_step, 127);
    assert_eq!(Config::try_from_file("volume_step = -128").unwrap().volume_step, -128);
    assert_eq!(Config::try_from_file("volume_step = 128").unwrap_err(), ConfigError::OutOfRange);
    assert_eq!(Config::try_from_file("speed_step = 32768").unwrap_err(), ConfigError::OutOfRange);
    assert_eq!(Config::try_from_file("speed_step = -32768").unwrap().speed_step, -32768);
    assert_eq!(
        Config::try_from_file("seek_step = 9223372036854775807").unwrap().seek_step,
        i64::MAX
    );
}

#[test]
fn unknown_keys_and_wrong_kinds_are_refused() {
    assert_eq!(
        Config::try_from_file("colour = 1").unwrap_err(),
        ConfigError::InvalidKey("colour".to_string())
    );
    assert_eq!(
        Config::try_from_file("port = \"4000\"").unwrap_err(),
        ConfigError::InvalidKey("port".to_string())
    );
    assert_eq!(
        Config::try_from_file("seek_step = 1.5").unwrap_err(),
        ConfigError::InvalidKey("seek_step".to_string())
    );
    assert_eq!(
        Config::try_from_file("library_group_by = \"album\"").unwrap_err(),
        ConfigError::InvalidKey("library_group_by".to_string())
    );
    assert_eq!(
        Config::try_from_file("keybind = 3").unwrap_err(),
        ConfigError::InvalidKey("keybind".to_string())
    );
    assert_eq!(Config::try_from_file("port = ").unwrap_err(), ConfigError::InvalidToml);
    assert_eq!(
        ConfigError::InvalidKey("colour".to_string()).message(),
        "invalid config key `colour`"
    );
    assert_eq!(ConfigError::OutOfRange.message(), "out of range integral type conversion attempted");
    assert_eq!(ConfigError::InvalidToml.message(), "invalid TOML");
}

#[test]
fn keybind_overrides() {
    let config = Config::try_from_file(
        "[keybind]\nquit = \"Q\"\nscroll_top = [\"t t\", 3, \"<HOME>\"]\nremove_from_queue = \"d d\"\n",
    )
    .unwrap();
    let keybind = &config.keybind;
    assert_eq!(terminal(keybind, &[char_key('Q')]), Some(Binding::Quit));
    assert_eq!(terminal(keybind, &[char_key('q')]), Some(Binding::Quit));
    assert_eq!(terminal(keybind, &[char_key('t'), char_key('t')]), Some(Binding::ScrollTop));
    assert_eq!(terminal(keybind, &[char_key('g'), char_key('g')]), Some(Binding::ScrollTop));
    assert_eq!(
        terminal(keybind, &[amusing::model::keybind::code_key(amusing::model::keybind::KeyCode::Home)]),
        Some(Binding::ScrollTop)
    );
    // `t` was the key for gapless mode and `d` the key to remove a song
    assert_eq!(terminal(keybind, &[char_key('t')]), None);
    assert_eq!(terminal(keybind, &[char_key('d')]), None);
    assert_eq!(terminal(keybind, &[char_key('d'), char_key('d')]), Some(Binding::RemoveFromQueue));
    assert_eq!(terminal(keybind, &[control_char_key('d')]), Some(Binding::ScrollManyDown));
}

#[test]
fn keybind_from_a_table() {
    let keybind = Keybind::try_from(&table(vec![("stop", Json::text("C-s"))])).unwrap();
    assert_eq!(terminal(&keybind, &[control_char_key('s')]), Some(Binding::Stop));
    assert_eq!(terminal(&keybind, &[char_key('S')]), Some(Binding::Stop));
    assert_eq!(Keybind::try_from(&vec![]), Ok(Keybind::default()));
}

#[test]
fn keybind_errors() {
    assert_eq!(
        Keybind::try_from(&table(vec![("jump", Json::text("x"))])),
        Err(ConfigError::UnknownBinding("jump".to_string()))
    );
    assert_eq!(
        Keybind::try_from(&table(vec![("quit", Json::text("x nope"))])),
        Err(ConfigError::BadKeybinding("x nope".to_string()))
    );
    assert_eq!(
        Keybind::try_from(&table(vec![("quit", Json::List(vec![Json::text("x"), Json::text("<NOPE>")]))])),
        Err(ConfigError::BadKeybinding("<NOPE>".to_string()))
    );
    assert_eq!(
        Keybind::try_from(&table(vec![("quit", Json::Unsigned(3))])),
        Err(ConfigError::ExpectedStringOrArray)
    );
    assert_eq!(
        Config::try_from_file("[keybind]\nquit = true").unwrap_err(),
        ConfigError::ExpectedStringOrArray
    );
    assert_eq!(ConfigError::UnknownBinding("jump".to_string()).message(), "unknown binding `jump`");
    assert_eq!(
        ConfigError::BadKeybinding("x nope".to_string()).message(),
        "could not parse `x nope` as a keybinding"
    );
    assert_eq!(ConfigError::ExpectedStringOrArray.message(), "expected a string or an array");
}

#[test]
fn theme_entries() {
    let config = Config::try_from_file(
        "[theme.current_title]\nfg = \"red\"\nadd_modifier = \"BOLD\"\n[theme.search_box]\nbg = \"blue\"\nsub_modifier = 3\n",
    )
    .unwrap();
    assert_eq!(config.theme.len(), 2);
    assert_eq!(config.theme[0].0, "current_title");
    let style = config.theme[0].1.as_object().unwrap();
    assert_eq!(style.len(), 4);
    assert_eq!(style[2], ("add_modifier".to_string(), Json::text("BOLD")));
    assert_eq!(style[3], ("sub_modifier".to_string(), Json::text("")));
    assert_eq!(config.theme[0].1.get("fg"), Some(&Json::text("red")));
    assert_eq!(config.theme[0].1.get("add_modifier"), Some(&Json::text("BOLD")));
    assert_eq!(config.theme[1].0, "search_box");
    assert_eq!(config.theme[1].1.get("sub_modifier"), Some(&Json::text("")));
    assert_eq!(config.theme[1].1.get("add_modifier"), Some(&Json::text("")));
    assert_eq!(config.theme[1].1.get("bg"), Some(&Json::text("blue")));
}

#[test]
fn theme_errors() {
    assert_eq!(
        theme_from(table(vec![("title", Json::Object(vec![]))])),
        Err(ConfigError::InvalidKey("title".to_string()))
    );
    assert_eq!(
        theme_from(table(vec![("search_box", Json::text("blue"))])),
        Err(ConfigError::InvalidKey("search_box".to_string()))
    );
    assert_eq!(theme_from(vec![]), Ok(vec![]));
    assert_eq!(
        Config::try_from_file("theme = 3").unwrap_err(),
        ConfigError::InvalidKey("theme".to_string())
    );
}

#[test]
fn cli_options_hold_the_path() {
    let options = CliOptions { config_file: Some("x.toml".to_string()) };
    assert_eq!(options.config_file.as_deref(), Some("x.toml"));
}

#[test]
fn cover_art_is_decoded() {
    let mut cover = CoverArtState::try_new();
    assert!(!cover.draw);
    assert_eq!(cover.replace_art(Some("aGVsbG8=")), Some(b"hello".to_vec()));
    assert!(!cover.draw);
    cover.art_replaced();
    assert!(cover.draw);
    assert_eq!(cover.replace_art(Some("not base64!")), None);
    assert!(cover.draw);
    assert_eq!(cover.replace_art(Some("")), Some(vec![]));
    assert_eq!(cover.replace_art(None), None);
    assert!(!cover.draw);
}
