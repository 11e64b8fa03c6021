use llc_updater::checksum::hash;
use llc_updater::setting::{skip_answer, DownloadReason, Lock, Setting, SkipQuestion, SkipStep};
use llc_updater::weburl::{parse_url, UrlParts};

fn example_url() -> UrlParts {
    parse_url("https://example.com").ok().unwrap()
}

fn setting_with(locks: Vec<Lock>) -> Setting {
    Setting { date: chrono::NaiveDateTime::default(), font: None, locks }
}

fn lock(name: &str, checksum: &str) -> Lock {
    let mut l = Lock::new(name.to_string(), &example_url(), "./justfile");
    l.checksum = checksum.to_string();
    l
}

#[test]
fn new_lock_has_no_checksum() {
    let l = Lock::new("test".to_string(), &example_url(), "./justfile");
    assert_eq!(l.name, "test");
    assert_eq!(l.source, "https://example.com/");
    assert_eq!(l.asset_file_path, "./justfile");
    assert!(l.checksum.is_empty());
}

#[test]
fn refresh_checksum_records_hash_or_reports_failure() {
    let mut l = Lock::new("test".to_string(), &example_url(), "./justfile");
    assert!(l.refresh_checksum(Ok(b"abc".to_vec())).is_ok());
    assert_eq!(l.checksum, "ba7816bf8f01cfea414140de5dae2223b00361a396177a9cb410ff61f20015ad");
    let err = l.refresh_checksum(Err("No such file or directory (os error 2)".to_string()));
    assert_eq!(
        err.unwrap_err(),
        "Failed to hash file at ./justfile: No such file or directory (os error 2)"
    );
    assert_eq!(l.checksum, "ba7816bf8f01cfea414140de5dae2223b00361a396177a9cb410ff61f20015ad");
}

#[test]
fn hash_of_empty_input() {
    assert_eq!(hash(b""), "e3b0c44298fc1c149afbf4c8996fb92427ae41e4649b934ca495991b7852b855");
}

#[test]
fn upsert_replaces_record_of_same_name() {
    let mut s = setting_with(vec![lock("a", "1"), lock("b", "2")]);
    s.upsert_lock(lock("b", "3"));
    assert_eq!(s.locks.len(), 2);
    assert_eq!(s.locks[1].checksum, "3");
    assert_eq!(s.locks[0].checksum, "1");
    s.upsert_lock(lock("c", "4"));
    assert_eq!(s.locks.len(), 3);
    assert_eq!(s.find_lock_index("c"), Some(2));
    s.upsert_lock(lock("c", "4"));
    assert_eq!(s.locks.len(), 3);
    assert_eq!(s.find_lock_index("zzz"), None);
}

#[test]
fn find_lock_index_finds_the_first() {
    let s = setting_with(vec![lock("x", "1"), lock("x", "2")]);
    assert_eq!(s.find_lock_index("x"), Some(0));
}

#[test]
fn skip_check_without_record_or_file_downloads() {
    let s = setting_with(vec![lock("a.zip", "")]);
    assert!(matches!(s.begin_skip_check("b.zip", true), SkipStep::Download(DownloadReason::NoRecord)));
    assert!(matches!(s.begin_skip_check("a.zip", false), SkipStep::Download(DownloadReason::NoCachedFile)));
    assert!(matches!(s.begin_skip_check("a.zip", true), SkipStep::Hash { index: 0 }));
}

#[test]
fn skip_check_compares_checksum_with_digest() {
    let abc = "ba7816bf8f01cfea414140de5dae2223b00361a396177a9cb410ff61f20015ad";
    let mut s = setting_with(vec![lock("a.zip", "")]);
    let digest = format!("sha256:{}", abc);
    match s.after_hash(0, Ok(b"abc".to_vec()), Some(&digest)) {
        SkipStep::Ask(q) => {
            assert!(matches!(q, SkipQuestion::ChecksumVerified));
            assert!(skip_answer(&q, true));
            assert!(!skip_answer(&q, false));
        }
        _ => panic!("expected a question"),
    }
    assert_eq!(s.locks[0].checksum, abc);
    // A digest without the prefix is compared as it is.
    assert!(matches!(s.after_hash(0, Ok(b"abc".to_vec()), Some(abc)), SkipStep::Ask(SkipQuestion::ChecksumVerified)));
    match s.after_hash(0, Ok(b"abd".to_vec()), Some(&digest)) {
        SkipStep::Ask(SkipQuestion::ChecksumDiffers { local, expected }) => {
            assert_eq!(expected, abc);
            assert_ne!(local, abc);
            let q = SkipQuestion::ChecksumDiffers { local, expected };
            assert!(skip_answer(&q, false));
            assert!(!skip_answer(&q, true));
        }
        _ => panic!("expected a mismatch"),
    }
    assert!(matches!(s.after_hash(0, Ok(b"abc".to_vec()), None), SkipStep::Download(DownloadReason::NoDigest)));
    match s.after_hash(0, Err("gone".to_string()), Some(abc)) {
        SkipStep::Download(DownloadReason::HashFailed(m)) => {
            assert_eq!(m, "Failed to hash file at ./justfile: gone")
        }
        _ => panic!("expected a hash failure"),
    }
}
