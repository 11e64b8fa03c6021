use llc_updater::llc::{
    font_lock_name, get_assets, get_font_archive_file_path, github_repo, nonempty_releases,
    parse_github, AssetWrapper, ReleaseWrapper,
};
use llc_updater::weburl::{parse_url, url_path_segments};

fn release(tag: &str, name: Option<&str>) -> ReleaseWrapper {
    ReleaseWrapper { tag_name: tag.to_string(), name: name.map(|n| n.to_string()), assets: vec![] }
}

#[test]
fn github_urls_name_owner_and_repository() {
    assert_eq!(
        parse_github("https://github.com/LocalizeLimbusCompany/LocalizeLimbusCompany"),
        Some(("LocalizeLimbusCompany".to_string(), "LocalizeLimbusCompany".to_string()))
    );
    assert_eq!(
        parse_github("https://github.com/owner/repo.git/tree/main"),
        Some(("owner".to_string(), "repo".to_string()))
    );
    assert_eq!(parse_github("https://gitlab.com/owner/repo"), None);
    assert_eq!(parse_github("https://github.com/owner"), None);
    assert_eq!(parse_github("https://github.com/owner/.git"), None);
    assert_eq!(parse_github("not a url"), None);
}

#[test]
fn url_parts() {
    let u = parse_url("https://example.com").ok().unwrap();
    assert_eq!(u.serialization, "https://example.com/");
    assert_eq!(u.domain, Some("example.com".to_string()));
    assert_eq!(u.path, "/");
    assert!(parse_url("::").is_err());
    assert_eq!(parse_url("::").err().unwrap(), url::Url::parse("::").unwrap_err().to_string());
    assert_eq!(parse_url("no scheme").err().unwrap(), "relative URL without a base");
    assert_eq!(url_path_segments("/a/b/"), Some(vec!["a".to_string(), "b".to_string(), String::new()]));
    assert_eq!(url_path_segments("x"), None);
    let ip = parse_url("https://127.0.0.1/a/b").ok().unwrap();
    assert_eq!(ip.domain, None);
    assert_eq!(github_repo(&ip), None);
}

#[test]
fn font_archive_path_comes_from_url() {
    let u = parse_url("https://raw.githubusercontent.com/L/L/refs/heads/main/Fonts/LLCCN-Font.7z").ok().unwrap();
    assert_eq!(get_font_archive_file_path("/c", &u), "/c/LLCCN-Font.7z");
    let dir = parse_url("https://example.com/fonts/").ok().unwrap();
    assert_eq!(get_font_archive_file_path("/c", &dir), "/c/LLCCN-Font.7z");
    assert_eq!(font_lock_name(Some("F.7z")), "F.7z");
    assert_eq!(font_lock_name(None), "LLCCN-Font.7z");
}

#[test]
fn release_labels() {
    assert_eq!(release("v1", Some("2024061501")).to_string(), "Tag: v1 - (2024-06-15 [#01])");
    assert_eq!(release("v1", Some("2024061501-extra")).to_string(), "Tag: v1 - (2024-06-15 [#01])");
    assert_eq!(release("v2", Some("short")).to_string(), "Tag: v2 - (short)");
    assert_eq!(release("v3", Some("")).to_string(), "Tag: v3 - (No Release Name)");
    assert_eq!(release("v4", None).to_string(), "Tag: v4 - (No Release Name)");
}

#[test]
fn assets_and_releases() {
    let asset = AssetWrapper { name: "LLC_zh-CN.7z".into(), digest: None, browser_download_url: "https://x/y".into() };
    assert_eq!(asset.to_string(), "LLC_zh-CN.7z");
    let mut r = release("v1", None);
    r.assets.push(asset);
    let assets = get_assets(r);
    assert_eq!(assets.len(), 1);
    assert_eq!(nonempty_releases(vec![]).err().unwrap(), "No releases found for this repository.");
    assert_eq!(nonempty_releases(vec![release("v1", None)]).ok().unwrap().len(), 1);
}
