use llc_updater::lang::{get_current_lang, get_languages, lang_config_path, DirEntryInfo, LangConfig};

fn entry(dir: &str, name: &str, is_dir: bool) -> Option<DirEntryInfo> {
    Some(DirEntryInfo { name: name.to_string(), path: format!("{}/{}", dir, name), is_dir })
}

fn config(lang: &str) -> LangConfig {
    LangConfig {
        lang: lang.to_string(),
        title_font: "f.ttf".to_string(),
        context_font: "f.ttf".to_string(),
        sampling_point_size: 40,
        padding: 0,
    }
}

#[test]
fn get_languages_returns_only_subdirectories() {
    let dir = "/tmp/llc-lang-test-subdirs";
    let listing = vec![
        entry(dir, "LLC_zh-TW", true),
        entry(dir, "config.json", false),
        entry(dir, "LLC_zh-CN", true),
    ];
    let langs = get_languages(Some(listing));
    let mut names: Vec<_> = langs.iter().map(|l| l.name.as_str()).collect();
    names.sort();
    assert_eq!(names, ["LLC_zh-CN", "LLC_zh-TW"]);
}

#[test]
fn get_languages_empty_dir_returns_empty() {
    let langs = get_languages(Some(Vec::new()));
    assert!(langs.is_empty());
}

#[test]
fn get_languages_nonexistent_dir_returns_empty() {
    // A directory that cannot be listed gives no listing at all.
    let langs = get_languages(None);
    assert!(langs.is_empty());
}

#[test]
fn get_languages_path_reflects_real_location() {
    let dir = "/tmp/llc-lang-test-paths";
    let langs = get_languages(Some(vec![entry(dir, "LLC_zh-CN", true)]));
    assert_eq!(langs.len(), 1);
    assert_eq!(langs[0].language_dir_path, "/tmp/llc-lang-test-paths/LLC_zh-CN");
}

#[test]
fn get_languages_skips_unreadable_entries_in_order() {
    let dir = "/d";
    let langs = get_languages(Some(vec![entry(dir, "B", true), None, entry(dir, "A", true)]));
    let names: Vec<_> = langs.iter().map(|l| l.name.as_str()).collect();
    assert_eq!(names, ["B", "A"]);
}

#[test]
fn get_current_lang_reads_config_json() {
    let dir = "/tmp/llc-lang-test-config";
    assert_eq!(lang_config_path(dir), "/tmp/llc-lang-test-config/config.json");
    let c = config("LLC_zh-CN");
    let lang = get_current_lang(dir, Some(&c)).unwrap();
    assert_eq!(lang.name, "LLC_zh-CN");
    assert_eq!(lang.language_dir_path, "/tmp/llc-lang-test-config/LLC_zh-CN");
}

#[test]
fn get_current_lang_returns_none_when_config_missing() {
    let result = get_current_lang("/tmp/llc-lang-test-no-config", None);
    assert!(result.is_none());
}

#[test]
fn get_current_lang_returns_none_on_invalid_json() {
    // A configuration that does not parse is no configuration.
    let result = get_current_lang("/tmp/llc-lang-test-bad-json", None);
    assert!(result.is_none());
}
