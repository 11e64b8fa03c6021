use llc_updater::lang::get_languages;
use llc_updater::updater::{
    archive_kind, extension_of, find_extracted_lang_root_dir_path, get_font_url, get_lbc_data_dir,
    get_repository_url, handle_prompt_error, plan_font_install, should_download_font,
    ArchiveKind, DataDirSource, FontLangEntry, FontStep, Paths, PromptFailure, SubdirProbe,
};
use llc_updater::updater::{font_extract_dir, next_font_action, FontAction, FontEvent};

const ROOT: &str = "/tmp/llc-main-test";

fn probe(path: &str, is_dir: bool, nested: bool, lang: bool) -> SubdirProbe {
    SubdirProbe {
        path: path.to_string(),
        readable: true,
        is_dir,
        nested_lang_is_dir: nested,
        lang_is_dir: lang,
    }
}

#[test]
fn finds_direct_nested_path() {
    let result = find_extracted_lang_root_dir_path(ROOT, true, false, Some(&vec![])).unwrap();
    assert_eq!(result, format!("{}/LimbusCompany_Data/Lang", ROOT));
}

#[test]
fn finds_direct_lang_path() {
    let result = find_extracted_lang_root_dir_path(ROOT, false, true, Some(&vec![])).unwrap();
    assert_eq!(result, format!("{}/Lang", ROOT));
}

#[test]
fn finds_nested_path_under_subdirectory() {
    let sub = format!("{}/LimbusLocalize_2026041901", ROOT);
    let entries = vec![probe(&sub, true, true, false)];
    let result = find_extracted_lang_root_dir_path(ROOT, false, false, Some(&entries)).unwrap();
    assert_eq!(result, format!("{}/LimbusLocalize_2026041901/LimbusCompany_Data/Lang", ROOT));
}

#[test]
fn finds_lang_under_subdirectory() {
    let sub = format!("{}/some_release", ROOT);
    let entries = vec![probe(&sub, true, false, true)];
    let result = find_extracted_lang_root_dir_path(ROOT, false, false, Some(&entries)).unwrap();
    assert_eq!(result, format!("{}/some_release/Lang", ROOT));
}

#[test]
fn returns_none_when_no_lang_dir() {
    let sub = format!("{}/random_dir", ROOT);
    let entries = vec![probe(&sub, true, false, false)];
    let result = find_extracted_lang_root_dir_path(ROOT, false, false, Some(&entries));
    assert!(result.is_none());
}

#[test]
fn prefers_direct_nested_over_lang_shortcut() {
    let result = find_extracted_lang_root_dir_path(ROOT, true, true, Some(&vec![])).unwrap();
    assert_eq!(result, format!("{}/LimbusCompany_Data/Lang", ROOT));
}

#[test]
fn search_stops_at_unreadable_entry_and_skips_files() {
    let mut bad = probe("/x/bad", true, true, true);
    bad.readable = false;
    let file = probe("/x/file", false, true, true);
    let good = probe("/x/good", true, false, true);
    assert_eq!(
        find_extracted_lang_root_dir_path("/x", false, false, Some(&vec![file, good])),
        Some("/x/good/Lang".to_string())
    );
    let good2 = probe("/x/good", true, false, true);
    assert_eq!(find_extracted_lang_root_dir_path("/x", false, false, Some(&vec![bad, good2])), None);
    assert_eq!(find_extracted_lang_root_dir_path("/x", false, false, None), None);
}

#[test]
fn language_test() {
    let paths = Paths::new("test_none".to_string(), "./test/LimbusCompany_Data".to_string(), "./test/llc");
    assert_eq!(paths.lbc_lang_dir, "./test/LimbusCompany_Data/Lang");
    assert_eq!(paths.app_cache_dir, "./test/llc/cache");
    assert_eq!(paths.download_file_path(), "./test/llc/cache/test_none");
    let languages = get_languages(None);
    assert!(languages.is_empty());
}

#[test]
fn data_dir_source_by_mode() {
    match get_lbc_data_dir(true, true) {
        DataDirSource::Fixed(p) => assert_eq!(p, "./test/LimbusCompany_Data"),
        _ => panic!("test mode uses the fixed directory"),
    }
    assert!(matches!(get_lbc_data_dir(false, true), DataDirSource::Registry));
    assert!(matches!(get_lbc_data_dir(false, false), DataDirSource::SteamLibraries));
}

#[test]
fn prompts_offer_the_defaults() {
    let r = get_repository_url();
    assert_eq!(r.default, "https://github.com/LocalizeLimbusCompany/LocalizeLimbusCompany");
    assert_eq!(r.context, "Repository URL input");
    let f = get_font_url();
    assert!(f.default.ends_with("/Fonts/LLCCN-Font.7z"));
    assert_eq!(f.message, "Font asset URL:");
}

#[test]
fn prompt_errors_end_the_run() {
    let c = handle_prompt_error("Asset selection", PromptFailure::Canceled);
    assert_eq!((c.code, c.to_stderr, c.message.as_str()), (0, false, "\nAsset selection canceled by user."));
    let i = handle_prompt_error("Asset selection", PromptFailure::Interrupted);
    assert_eq!((i.code, i.message.as_str()), (0, "\nAsset selection interrupted (Ctrl+C)."));
    let o = handle_prompt_error("Asset selection", PromptFailure::Other("boom".to_string()));
    assert_eq!((o.code, o.to_stderr, o.message.as_str()), (1, true, "\nAsset selection failed: boom"));
}

#[test]
fn archive_extensions() {
    assert_eq!(extension_of("LLCCN-Font.7z"), Some("7z".to_string()));
    assert_eq!(extension_of("a.tar.zip"), Some("zip".to_string()));
    assert_eq!(extension_of(".7z"), None);
    assert_eq!(extension_of(".."), None);
    assert_eq!(extension_of("noext"), None);
    assert_eq!(extension_of("trailing."), Some(String::new()));
    assert!(matches!(archive_kind(Some("x.7z")), Some(ArchiveKind::SevenZ)));
    assert!(matches!(archive_kind(Some("x.zip")), Some(ArchiveKind::Zip)));
    assert!(archive_kind(Some("x.rar")).is_none());
    assert!(archive_kind(None).is_none());
}

#[test]
fn font_download_decision() {
    assert!(should_download_font(false, true));
    assert!(should_download_font(true, false));
    assert!(!should_download_font(true, true));
}

#[test]
fn font_install_plan() {
    let lang_dir = "/g/Lang";
    let entries = vec![
        FontLangEntry { path: "/e/LLC_zh-CN".into(), name: Some("LLC_zh-CN".into()), is_dir: true, font_dir_is_dir: true, target_font_exists: true },
        FontLangEntry { path: "/e/readme.txt".into(), name: Some("readme.txt".into()), is_dir: false, font_dir_is_dir: false, target_font_exists: false },
        FontLangEntry { path: "/e/LLC_en".into(), name: Some("LLC_en".into()), is_dir: true, font_dir_is_dir: false, target_font_exists: false },
        FontLangEntry { path: "/e/odd".into(), name: None, is_dir: true, font_dir_is_dir: true, target_font_exists: false },
    ];
    let (steps, count) = plan_font_install(lang_dir, &entries).unwrap();
    assert_eq!(count, 2);
    let text: Vec<String> = steps
        .iter()
        .map(|s| match s {
            FontStep::CreateDirAll(p) => format!("mkdir {}", p),
            FontStep::RemoveDirAll(p) => format!("rmdir {}", p),
            FontStep::CopyDir { from, to } => format!("cp {} {}", from, to),
        })
        .collect();
    assert_eq!(
        text,
        vec![
            "mkdir /g/Lang/LLC_zh-CN",
            "rmdir /g/Lang/LLC_zh-CN/Font",
            "cp /e/LLC_zh-CN/Font /g/Lang/LLC_zh-CN/Font",
            "mkdir /g/Lang/<unknown>",
            "cp /e/odd/Font /g/Lang/<unknown>/Font",
        ]
    );
    let none = plan_font_install(lang_dir, &vec![]);
    assert_eq!(none.err().unwrap(), "No font directory was found inside the extracted font archive");
}

const LANG_DIR: &str = "/g/LimbusCompany_Data/Lang";
const EXTRACT_DIR: &str = "/c/font_extract";

fn font_next(event: FontEvent) -> FontAction {
    next_font_action(LANG_DIR, EXTRACT_DIR, event)
}

fn finish_error(action: FontAction) -> String {
    match action {
        FontAction::Finish(Err(m)) => m,
        _ => panic!("expected the installation to fail"),
    }
}

#[test]
fn font_install_asks_first_and_stops_when_declined() {
    assert_eq!(font_extract_dir("/c"), EXTRACT_DIR);
    assert!(matches!(font_next(FontEvent::Started), FontAction::AskInstall));
    assert!(matches!(font_next(FontEvent::InstallAnswered(false)), FontAction::Finish(Ok(()))));
    assert!(matches!(font_next(FontEvent::InstallAnswered(true)), FontAction::ProbeCache));
}

#[test]
fn font_install_reuses_a_cached_archive_only_when_confirmed() {
    let probed = |archive_exists, font_recorded| font_next(FontEvent::CacheProbed { archive_exists, font_recorded });
    assert!(matches!(probed(false, true), FontAction::Download));
    assert!(matches!(probed(false, false), FontAction::Download));
    assert!(matches!(probed(true, true), FontAction::RefreshCachedLock));
    assert!(matches!(probed(true, false), FontAction::AskUseCached));
    assert!(matches!(font_next(FontEvent::CachedLockRefreshed), FontAction::AskUseCached));
    assert!(matches!(font_next(FontEvent::UseCachedAnswered(true)), FontAction::RecordLockAndWriteSetting));
    assert!(matches!(font_next(FontEvent::UseCachedAnswered(false)), FontAction::Download));
}

#[test]
fn font_install_writes_setting_before_extracting() {
    assert!(matches!(font_next(FontEvent::Downloaded(Ok(()))), FontAction::RecordLockAndWriteSetting));
    match font_next(FontEvent::SettingWritten(Ok(()))) {
        FontAction::Extract { dir } => assert_eq!(dir, EXTRACT_DIR),
        _ => panic!("expected extraction after the setting is written"),
    }
    match font_next(FontEvent::Extracted(Ok(()))) {
        FontAction::LocateLangRoot { dir } => assert_eq!(dir, EXTRACT_DIR),
        _ => panic!("expected the language directory to be located"),
    }
    match font_next(FontEvent::LangRootLocated(Some("/c/font_extract/Lang".into()))) {
        FontAction::ListLanguages { root } => assert_eq!(root, "/c/font_extract/Lang"),
        _ => panic!("expected the language directory to be listed"),
    }
}

#[test]
fn font_install_failures_end_it_with_their_message() {
    assert_eq!(finish_error(font_next(FontEvent::Downloaded(Err("download failed".into())))), "download failed");
    assert_eq!(finish_error(font_next(FontEvent::SettingWritten(Err("disk full".into())))), "disk full");
    assert_eq!(finish_error(font_next(FontEvent::Extracted(Err("bad archive".into())))), "bad archive");
    assert_eq!(
        finish_error(font_next(FontEvent::LangRootLocated(None))),
        "Font archive extraction did not contain a Lang directory under /c/font_extract"
    );
    assert_eq!(finish_error(font_next(FontEvent::LanguagesListed(Err("denied".into())))), "denied");
    assert_eq!(
        finish_error(font_next(FontEvent::LanguagesListed(Ok(vec![])))),
        "No font directory was found inside the extracted font archive"
    );
    assert_eq!(finish_error(font_next(FontEvent::FontsInstalled(Err("copy failed".into())))), "copy failed");
}

#[test]
fn font_install_plans_copies_then_cleans_up() {
    let entries = vec![FontLangEntry {
        path: "/c/font_extract/Lang/LLC_zh-CN".into(),
        name: Some("LLC_zh-CN".into()),
        is_dir: true,
        font_dir_is_dir: true,
        target_font_exists: true,
    }];
    match font_next(FontEvent::LanguagesListed(Ok(entries))) {
        FontAction::Install { steps, count } => {
            assert_eq!(count, 1);
            assert_eq!(steps.len(), 3);
            assert!(matches!(&steps[0], FontStep::CreateDirAll(p) if p == "/g/LimbusCompany_Data/Lang/LLC_zh-CN"));
            assert!(matches!(&steps[1], FontStep::RemoveDirAll(p) if p == "/g/LimbusCompany_Data/Lang/LLC_zh-CN/Font"));
            assert!(matches!(&steps[2], FontStep::CopyDir { from, to }
                if from == "/c/font_extract/Lang/LLC_zh-CN/Font" && to == "/g/LimbusCompany_Data/Lang/LLC_zh-CN/Font"));
        }
        _ => panic!("expected the fonts to be installed"),
    }
    match font_next(FontEvent::FontsInstalled(Ok(()))) {
        FontAction::CleanUp { dir } => assert_eq!(dir, EXTRACT_DIR),
        _ => panic!("expected clean-up"),
    }
    assert!(matches!(font_next(FontEvent::CleanedUp), FontAction::Finish(Ok(()))));
}
