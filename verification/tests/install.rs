use llc_updater::install::{get_extracted_lang_dir, install_and_clean, ExtractedEntry, InstallStep};

const LANG: &str = "/tmp/llc-fs-test/LimbusCompany_Data/Lang";

fn entry(name: &str, is_dir: bool, target_exists: bool, target_is_dir: bool) -> ExtractedEntry {
    ExtractedEntry { name: name.to_string(), is_dir, target_exists, target_is_dir }
}

fn describe(steps: &[InstallStep]) -> Vec<String> {
    steps
        .iter()
        .map(|s| match s {
            InstallStep::RemoveDirAll(p) => format!("rmdir {}", p),
            InstallStep::RemoveFile(p) => format!("rm {}", p),
            InstallStep::MoveDirInto { from, into } => format!("mvdir {} {}", from, into),
            InstallStep::Rename { from, to } => format!("mv {} {}", from, to),
        })
        .collect()
}

#[test]
fn install_and_clean_flattens_nested_structure() {
    assert_eq!(get_extracted_lang_dir(LANG), format!("{}/LimbusCompany_Data/Lang", LANG));
    let steps = install_and_clean(LANG, true, &vec![entry("LLC_zh-CN", true, false, false)]);
    assert_eq!(
        describe(&steps),
        vec![
            format!("mvdir {}/LimbusCompany_Data/Lang/LLC_zh-CN {}", LANG, LANG),
            format!("rmdir {}/LimbusCompany_Data", LANG),
        ]
    );
}

#[test]
fn install_and_clean_noop_when_already_flat() {
    let steps = install_and_clean(LANG, false, &vec![]);
    assert!(steps.is_empty());
}

#[test]
fn install_and_clean_replaces_existing_lang_dir() {
    let steps = install_and_clean(LANG, true, &vec![entry("LLC_zh-CN", true, true, true)]);
    assert_eq!(
        describe(&steps),
        vec![
            format!("rmdir {}/LLC_zh-CN", LANG),
            format!("mvdir {}/LimbusCompany_Data/Lang/LLC_zh-CN {}", LANG, LANG),
            format!("rmdir {}/LimbusCompany_Data", LANG),
        ]
    );
}

#[test]
fn install_and_clean_handles_multiple_lang_dirs() {
    let steps = install_and_clean(
        LANG,
        true,
        &vec![entry("LLC_zh-CN", true, false, false), entry("LLC_zh-TW", true, false, false)],
    );
    assert_eq!(steps.len(), 3);
    assert_eq!(
        describe(&steps)[1],
        format!("mvdir {}/LimbusCompany_Data/Lang/LLC_zh-TW {}", LANG, LANG)
    );
}

#[test]
fn install_and_clean_replaces_files_by_rename() {
    let steps = install_and_clean(LANG, true, &vec![entry("config.json", false, true, false)]);
    assert_eq!(
        describe(&steps),
        vec![
            format!("rm {}/config.json", LANG),
            format!("mv {}/LimbusCompany_Data/Lang/config.json {}/config.json", LANG, LANG),
            format!("rmdir {}/LimbusCompany_Data", LANG),
        ]
    );
}
