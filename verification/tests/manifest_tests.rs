//! Manifest decoding and the settings fallback chain.

use storynode_core::manifest::{parse_manifest_text, read_game_settings};
use storynode_core::startup::{resolve_window_config, startup_window_config};

#[test]
fn absent_manifest_yields_defaults() {
    // no manifest at all: the resolver reports no settings, the
    // configurator applies the built-in defaults
    assert!(read_game_settings(&None).is_none());
    let cfg = resolve_window_config(&None);
    assert_eq!(cfg.title, "StoryNode Player");
    assert_eq!(cfg.width, 1280);
    assert_eq!(cfg.height, 720);
}

#[test]
fn malformed_manifest_yields_defaults() {
    let text = String::from("{\"name\": \"Demo\", ");
    assert!(read_game_settings(&Some(text.clone())).is_none());
    let cfg = startup_window_config(&Some(text));
    assert_eq!(cfg.title, "StoryNode Player");
    assert_eq!(cfg.width, 1280);
    assert_eq!(cfg.height, 720);
}

#[test]
fn width_present_height_absent_default_independently() {
    let text = String::from(
        "{\"name\":\"X\",\"stages\":[],\"gameSettings\":{\"windowWidth\":800}}",
    );
    let cfg = startup_window_config(&Some(text));
    assert_eq!(cfg.title, "StoryNode Player");
    assert_eq!(cfg.width, 800);
    assert_eq!(cfg.height, 720);
}

#[test]
fn full_settings_are_taken() {
    let text = String::from(
        "{\"name\":\"Demo\",\"stages\":[],\"gameSettings\":{\"title\":\"Demo Game\",\"windowWidth\":800,\"windowHeight\":600}}",
    );
    let settings = read_game_settings(&Some(text.clone())).expect("settings expected");
    assert_eq!(settings.title.as_deref(), Some("Demo Game"));
    assert_eq!(settings.window_width, Some(800));
    assert_eq!(settings.window_height, Some(600));
    let cfg = startup_window_config(&Some(text));
    assert_eq!(cfg.title, "Demo Game");
    assert_eq!(cfg.width, 800);
    assert_eq!(cfg.height, 600);
}

#[test]
fn manifest_without_settings_block() {
    let text = String::from("{\"name\":\"Demo\",\"stages\":[\"s1\",\"s2\"]}");
    assert!(read_game_settings(&Some(text)).is_none());
}

#[test]
fn project_fields_are_read() {
    let m = parse_manifest_text(
        "{\"name\":\"Demo\",\"version\":\"1.2\",\"stages\":[\"intro\",\"end\"],\"extra\":42}",
    )
    .expect("manifest expected");
    assert_eq!(m.name, "Demo");
    assert_eq!(m.version.as_deref(), Some("1.2"));
    assert_eq!(m.stages, vec![String::from("intro"), String::from("end")]);
    assert!(m.game_settings.is_none());
}

#[test]
fn missing_name_fails() {
    assert!(parse_manifest_text("{\"stages\":[]}").is_none());
}

#[test]
fn missing_stages_fails() {
    assert!(parse_manifest_text("{\"name\":\"Demo\"}").is_none());
}

#[test]
fn non_string_stage_fails() {
    assert!(parse_manifest_text("{\"name\":\"Demo\",\"stages\":[\"a\",3]}").is_none());
}

#[test]
fn null_version_reads_as_absent() {
    let m = parse_manifest_text("{\"name\":\"Demo\",\"version\":null,\"stages\":[]}")
        .expect("manifest expected");
    assert!(m.version.is_none());
}

#[test]
fn width_out_of_range_fails() {
    let text = String::from(
        "{\"name\":\"X\",\"stages\":[],\"gameSettings\":{\"windowWidth\":4294967296}}",
    );
    assert!(read_game_settings(&Some(text)).is_none());
}

#[test]
fn negative_width_fails() {
    let text = String::from(
        "{\"name\":\"X\",\"stages\":[],\"gameSettings\":{\"windowWidth\":-5}}",
    );
    assert!(read_game_settings(&Some(text)).is_none());
}

#[test]
fn fractional_width_fails() {
    let text = String::from(
        "{\"name\":\"X\",\"stages\":[],\"gameSettings\":{\"windowWidth\":800.5}}",
    );
    assert!(read_game_settings(&Some(text)).is_none());
}

#[test]
fn wrong_typed_title_fails() {
    let text = String::from(
        "{\"name\":\"X\",\"stages\":[],\"gameSettings\":{\"title\":7}}",
    );
    assert!(read_game_settings(&Some(text)).is_none());
}

#[test]
fn null_settings_block_reads_as_absent() {
    let text = String::from("{\"name\":\"X\",\"stages\":[],\"gameSettings\":null}");
    assert!(read_game_settings(&Some(text)).is_none());
}

#[test]
fn flags_and_identifiers_are_read() {
    let text = String::from(
        "{\"name\":\"X\",\"stages\":[],\"gameSettings\":{\"resizable\":false,\"fullscreen\":true,\"defaultThemeId\":\"dark\",\"defaultGameMode\":\"story\"}}",
    );
    let s = read_game_settings(&Some(text)).expect("settings expected");
    assert_eq!(s.resizable, Some(false));
    assert_eq!(s.fullscreen, Some(true));
    assert_eq!(s.default_theme_id.as_deref(), Some("dark"));
    assert_eq!(s.default_game_mode.as_deref(), Some("story"));
}
