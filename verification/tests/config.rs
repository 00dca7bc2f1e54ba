use matrix_screensaver::config::{config_path, Charset, Config, DEFAULT_SPEED_BITS};

#[test]
fn test_defaults() {
    let cfg = Config::default();
    assert_eq!(cfg.idle_timeout_secs, 600);
    assert_eq!(cfg.fps, 30);
    assert!((f32::from_bits(cfg.speed_bits) - 1.0).abs() < f32::EPSILON);
    assert_eq!(cfg.charset, Charset::Katakana);
}

#[test]
fn default_color_is_green() {
    let cfg = Config::default();
    assert_eq!(cfg.color, "#00ff00");
    assert_eq!(DEFAULT_SPEED_BITS, 1.0f32.to_bits());
}

#[test]
fn config_path_prefers_xdg_config_home() {
    let p = config_path(Some("/tmp/xdg"), Some("/home/neo"));
    assert_eq!(p.as_deref(), Some("/tmp/xdg/matrix-screensaver/config.toml"));
}

#[test]
fn config_path_falls_back_to_home_dot_config() {
    let p = config_path(None, Some("/home/neo"));
    assert_eq!(p.as_deref(), Some("/home/neo/.config/matrix-screensaver/config.toml"));
}

#[test]
fn config_path_is_none_without_xdg_or_home() {
    assert_eq!(config_path(None, None), None);
}

#[test]
fn config_path_keeps_a_trailing_slash_single() {
    let p = config_path(Some("/etc/xdg/"), None);
    assert_eq!(p.as_deref(), Some("/etc/xdg/matrix-screensaver/config.toml"));
}

#[test]
fn an_empty_base_gives_a_relative_path() {
    let p = config_path(Some(""), None);
    assert_eq!(p.as_deref(), Some("matrix-screensaver/config.toml"));
}
