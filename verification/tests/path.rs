use llc_updater::conf::{
    config_file_path, ensure_config_file_exists, ensure_config_file_writable, init_error_action,
    ConfigError, InitAction,
};
use llc_updater::path::{env_flag_is_true, get_appdata_path, get_steam_path, is_test_mode};
use llc_updater::text::join;

#[test]
fn env_flags() {
    assert!(!env_flag_is_true(None));
    for v in ["", "0", "false", "no", " FALSE ", "No", "\t0\n", "\u{3000}no\u{a0}"] {
        assert!(!env_flag_is_true(Some(v)), "{:?}", v);
    }
    for v in ["1", "true", "yes", "on", "nope", "0 0"] {
        assert!(env_flag_is_true(Some(v)), "{:?}", v);
    }
    assert!(is_test_mode(Some("1"), None));
    assert!(is_test_mode(None, Some("true")));
    assert!(is_test_mode(Some("0"), Some("false")));
    assert!(is_test_mode(None, Some("")));
    assert!(!is_test_mode(Some("0"), None));
    assert!(!is_test_mode(None, None));
}

#[test]
fn data_locations() {
    assert_eq!(get_steam_path(true, None), Some("./test/Steam".to_string()));
    assert_eq!(get_steam_path(false, Some("/home/u/.local/share")), Some("/home/u/.local/share/Steam".to_string()));
    assert_eq!(get_steam_path(false, None), None);
    assert_eq!(get_appdata_path(true, Some("/x")), Some("./test/llc".to_string()));
    let appdata = get_appdata_path(false, Some("/home/u/.local/share")).unwrap();
    assert_eq!(appdata, "/home/u/.local/share/llc/");
    assert_eq!(config_file_path(None, &appdata), "/home/u/.local/share/llc/lock.json");
    assert_eq!(config_file_path(Some("/tmp/l.json"), &appdata), "/tmp/l.json");
}

#[test]
fn joining_paths() {
    assert_eq!(join("a", "b"), "a/b");
    assert_eq!(join("a/", "b"), "a/b");
    assert_eq!(join("", "b"), "b");
    assert_eq!(join("a", "/b"), "/b");
    assert_eq!(join("a", ""), "a/");
}

#[test]
fn config_checks_and_start_up() {
    assert!(matches!(ensure_config_file_exists("/l.json", false, false), Err(ConfigError::NotFound(p)) if p == "/l.json"));
    assert!(matches!(ensure_config_file_exists("/l.json", true, false), Err(ConfigError::NotAFile(_))));
    assert!(ensure_config_file_exists("/l.json", true, true).is_ok());
    assert!(matches!(ensure_config_file_writable("/l.json", true, true), Err(ConfigError::NotAFile(_))));
    assert!(ensure_config_file_writable("/l.json", false, false).is_ok());
    assert_eq!(ConfigError::NotFound("/l.json".into()).to_string(), "Config file not found at: /l.json");
    assert!(matches!(init_error_action(ConfigError::NotFound("/l.json".into())), InitAction::CreateDefault(p) if p == "/l.json"));
    match init_error_action(ConfigError::JsonError("EOF".into())) {
        InitAction::Exit(m) => assert_eq!(m, "Error: Config file contains invalid JSON: EOF"),
        _ => panic!("expected an exit"),
    }
}
