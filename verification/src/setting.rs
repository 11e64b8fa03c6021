//! The lock file's records: which archives were downloaded, from where, to
//! which file, and with which checksum, so that later runs can skip downloads.

use vstd::prelude::*;
use crate::checksum::{checksum_of, hash};
use crate::text::{str_eq, str_strip_prefix, strip_prefix_or_keep};
use crate::weburl::UrlParts;

verus! {

#[verifier::external_type_specification]
#[verifier::external_body]
pub struct ExNaiveDateTime(chrono::NaiveDateTime);

/// One downloaded archive.
pub struct Lock {
    pub name: String,
    pub source: String,
    pub asset_file_path: String,
    pub checksum: String,
}

/// What a `Lock` records, as character sequences.
pub struct LockView {
    pub name: Seq<char>,
    pub source: Seq<char>,
    pub asset_file_path: Seq<char>,
    pub checksum: Seq<char>,
}

impl View for Lock {
    type V = LockView;

    open spec fn view(&self) -> LockView {
        LockView {
            name: self.name@,
            source: self.source@,
            asset_file_path: self.asset_file_path@,
            checksum: self.checksum@,
        }
    }
}

impl Clone for Lock {
    fn clone(&self) -> (r: Self)
        ensures
            r@ == self@,
    {
        Lock {
            name: self.name.clone(),
            source: self.source.clone(),
            asset_file_path: self.asset_file_path.clone(),
            checksum: self.checksum.clone(),
        }
    }
}

/// The contents of the lock file: when it was written, the font archive and
/// the language archives.
pub struct Setting {
    pub date: chrono::NaiveDateTime,
    pub font: Option<Lock>,
    pub locks: Vec<Lock>,
}

pub open spec fn locks_view(locks: Seq<Lock>) -> Seq<LockView> {
    locks.map_values(|l: Lock| l@)
}

/// `i` is the first position in `ls` of a record named `name`.
pub open spec fn is_first_named(ls: Seq<LockView>, name: Seq<char>, i: int) -> bool {
    &&& 0 <= i < ls.len()
    &&& ls[i].name == name
    &&& forall|j: int| 0 <= j < i ==> ls[j].name != name
}

/// Some record in `ls` is named `name`.
pub open spec fn contains_name(ls: Seq<LockView>, name: Seq<char>) -> bool {
    exists|i: int| 0 <= i < ls.len() && ls[i].name == name
}

/// The first position of a record named `name` (meaningful when there is one).
pub open spec fn position_of(ls: Seq<LockView>, name: Seq<char>) -> int {
    choose|i: int| is_first_named(ls, name, i)
}

/// The record named `name`: the first one, as a lookup by name finds it.
pub open spec fn lookup(ls: Seq<LockView>, name: Seq<char>) -> Option<LockView> {
    if contains_name(ls, name) {
        Some(ls[position_of(ls, name)])
    } else {
        None
    }
}

/// `ls` with `l` in place of the first record of the same name, or with `l`
/// appended when there is none.
pub open spec fn upserted(ls: Seq<LockView>, l: LockView) -> Seq<LockView> {
    if contains_name(ls, l.name) {
        ls.update(position_of(ls, l.name), l)
    } else {
        ls.push(l)
    }
}

/// No two records share a name.
pub open spec fn names_unique(ls: Seq<LockView>) -> bool {
    forall|i: int, j: int| 0 <= i < ls.len() && 0 <= j < ls.len() && i != j ==> ls[i].name != ls[j].name
}

/// When a record named `name` exists, a first one exists and is unique.
pub proof fn lemma_first_named(ls: Seq<LockView>, name: Seq<char>)
    requires
        contains_name(ls, name),
    ensures
        is_first_named(ls, name, position_of(ls, name)),
        forall|i: int| is_first_named(ls, name, i) ==> i == position_of(ls, name),
    decreases ls.len(),
{
    if ls[0].name == name {
        assert(is_first_named(ls, name, 0));
    } else {
        let rest = ls.drop_first();
        let k: int = choose|k: int| 0 <= k < ls.len() && ls[k].name == name;
        assert(rest[k - 1].name == name);
        lemma_first_named(rest, name);
        let p: int = position_of(rest, name);
        assert(is_first_named(ls, name, p + 1)) by {
            assert forall|j: int| 0 <= j < p + 1 implies ls[j].name != name by {
                if j > 0 {
                    assert(ls[j] == rest[j - 1]);
                }
            }
        }
    }
    let p: int = position_of(ls, name);
    assert forall|i: int| is_first_named(ls, name, i) implies i == p by {
        if i < p {
            assert(ls[i].name != name);
        } else if p < i {
            assert(ls[p].name != name);
        }
    }
}

/// Why an archive is downloaded rather than taken from the cache.
pub enum DownloadReason {
    /// No record of an archive of that name.
    NoRecord,
    /// The archive is not in the cache.
    NoCachedFile,
    /// The cached archive could not be hashed; the message says why.
    HashFailed(String),
    /// The release gives no digest to compare the checksum with.
    NoDigest,
}

/// What to ask the user about a cached archive.
pub enum SkipQuestion {
    /// The checksum equals the release's digest: skip the download?
    ChecksumVerified,
    /// The checksum differs from the release's digest: download again?
    ChecksumDiffers { local: String, expected: String },
}

/// The next step in deciding whether a cached archive can be reused.
pub enum SkipStep {
    Download(DownloadReason),
    /// Hash the archive recorded at `index`, then call `after_hash`.
    Hash { index: usize },
    Ask(SkipQuestion),
}

/// The checksum a release digest stands for: the digest without a leading `sha256:`.
pub open spec fn expected_checksum(digest: Seq<char>) -> Seq<char> {
    strip_prefix_or_keep(digest, "sha256:"@)
}

/// After a record is put in, a lookup of its name finds exactly that record.
pub proof fn lemma_upsert_then_lookup(ls: Seq<LockView>, l: LockView)
    ensures
        lookup(upserted(ls, l), l.name) == Some(l),
{
    let us = upserted(ls, l);
    if contains_name(ls, l.name) {
        lemma_first_named(ls, l.name);
        let p: int = position_of(ls, l.name);
        assert(us[p].name == l.name);
        assert(is_first_named(us, l.name, p));
        lemma_first_named(us, l.name);
    } else {
        let n: int = ls.len() as int;
        assert(us[n].name == l.name);
        assert(is_first_named(us, l.name, n));
        lemma_first_named(us, l.name);
    }
}

/// Putting a record in leaves the lookup of every other name as it was.
pub proof fn lemma_upsert_other_names(ls: Seq<LockView>, l: LockView, name: Seq<char>)
    requires
        name != l.name,
    ensures
        lookup(upserted(ls, l), name) == lookup(ls, name),
{
    let us = upserted(ls, l);
    if contains_name(ls, l.name) {
        lemma_first_named(ls, l.name);
    }
    assert forall|i: int| 0 <= i < ls.len() implies #[trigger] us[i].name == name <==> ls[i].name
        == name by {
        if contains_name(ls, l.name) && i == position_of(ls, l.name) {
            assert(us[i] == l);
        }
    }
    if !contains_name(ls, l.name) {
        assert(us[ls.len() as int] == l);
    }
    if contains_name(ls, name) {
        lemma_first_named(ls, name);
        let p: int = position_of(ls, name);
        assert(us[p].name == name);
        assert(is_first_named(us, name, p));
        lemma_first_named(us, name);
        if contains_name(ls, l.name) {
            assert(p != position_of(ls, l.name));
        }
    } else {
        assert(!contains_name(us, name)) by {
            if contains_name(us, name) {
                let k: int = choose|k: int| 0 <= k < us.len() && us[k].name == name;
                if k < ls.len() {
                    assert(ls[k].name == name);
                }
            }
        }
    }
}

/// Putting the same record in twice is the same as putting it in once.
pub proof fn lemma_upsert_idempotent(ls: Seq<LockView>, l: LockView)
    ensures
        upserted(upserted(ls, l), l) == upserted(ls, l),
{
    let us = upserted(ls, l);
    lemma_upsert_then_lookup(ls, l);
    assert(contains_name(us, l.name));
    lemma_first_named(us, l.name);
    let p: int = position_of(us, l.name);
    assert(us[p] == l);
    assert(us.update(p, l) =~= us);
}

/// The number of records grows by one exactly when the name was new.
pub proof fn lemma_upsert_len(ls: Seq<LockView>, l: LockView)
    ensures
        upserted(ls, l).len() == ls.len() + if contains_name(ls, l.name) {
            0int
        } else {
            1int
        },
{
    if contains_name(ls, l.name) {
        lemma_first_named(ls, l.name);
    }
}

/// Records with distinct names keep distinct names after a record is put in.
pub proof fn lemma_upsert_keeps_names_unique(ls: Seq<LockView>, l: LockView)
    requires
        names_unique(ls),
    ensures
        names_unique(upserted(ls, l)),
{
    let us = upserted(ls, l);
    if contains_name(ls, l.name) {
        lemma_first_named(ls, l.name);
        let p: int = position_of(ls, l.name);
        assert forall|i: int, j: int|
            0 <= i < us.len() && 0 <= j < us.len() && i != j implies us[i].name != us[j].name by {
            if i == p {
                assert(ls[j].name != ls[p].name);
            } else if j == p {
                assert(ls[i].name != ls[p].name);
            } else {
                assert(ls[i].name != ls[j].name);
            }
        }
    } else {
        let n: int = ls.len() as int;
        assert forall|i: int, j: int|
            0 <= i < us.len() && 0 <= j < us.len() && i != j implies us[i].name != us[j].name by {
            if i == n {
                assert(ls[j].name != l.name);
            } else if j == n {
                assert(ls[i].name != l.name);
            } else {
                assert(ls[i].name != ls[j].name);
            }
        }
    }
}

impl Lock {
    /// A record of `name` downloaded from the URL `source_url` to
    /// `asset_file_path`, with no checksum yet; the URL is kept as its
    /// serialization.
    pub fn new(name: String, source_url: &UrlParts, asset_file_path: &str) -> (r: Lock)
        ensures
            r@ == (LockView {
                name: name@,
                source: source_url@.serialization,
                asset_file_path: asset_file_path@,
                checksum: Seq::empty(),
            }),
    {
        Lock {
            name,
            source: source_url.serialization.clone(),
            asset_file_path: asset_file_path.to_owned(),
            checksum: String::new(),
        }
    }

    /// Records the checksum of the archive whose contents are given, or, when
    /// the file could not be read, reports that with the path and the reason
    /// and leaves the record as it was.
    pub fn refresh_checksum(&mut self, file_contents: Result<Vec<u8>, String>) -> (r: Result<
        (),
        String,
    >)
        ensures
            match file_contents {
                Ok(data) => {
                    &&& r is Ok
                    &&& final(self)@ == (LockView { checksum: checksum_of(data@), ..old(self)@ })
                },
                Err(e) => {
                    &&& final(self)@ == old(self)@
                    &&& r matches Err(m) && m@ == "Failed to hash file at "@ + old(
                        self,
                    ).asset_file_path@ + ": "@ + e@
                },
            },
    {
        match file_contents {
            Ok(data) => {
                self.checksum = hash(data.as_slice());
                Ok(())
            },
            Err(e) => {
                let mut m = String::from_str("Failed to hash file at ");
                m.append(self.asset_file_path.as_str());
                m.append(": ");
                m.append(e.as_str());
                Err(m)
            },
        }
    }
}

impl Setting {
    /// First step of the cache check for the archive `asset_name`: download when
    /// there is no record of it or no cached file, else hash the recorded file.
    pub fn begin_skip_check(&self, asset_name: &str, cached_file_exists: bool) -> (r: SkipStep)
        ensures
            !contains_name(locks_view(self.locks@), asset_name@) ==> r matches SkipStep::Download(
                DownloadReason::NoRecord,
            ),
            contains_name(locks_view(self.locks@), asset_name@) && !cached_file_exists
                ==> r matches SkipStep::Download(DownloadReason::NoCachedFile),
            contains_name(locks_view(self.locks@), asset_name@) && cached_file_exists
                ==> (r matches SkipStep::Hash { index } && is_first_named(
                locks_view(self.locks@),
                asset_name@,
                index as int,
            )),
    {
        match self.find_lock_index(asset_name) {
            None => SkipStep::Download(DownloadReason::NoRecord),
            Some(index) => {
                if !cached_file_exists {
                    SkipStep::Download(DownloadReason::NoCachedFile)
                } else {
                    SkipStep::Hash { index }
                }
            },
        }
    }

    /// Second step: records the fresh checksum of the archive at `index` and
    /// compares it with the release's digest.
    pub fn after_hash(
        &mut self,
        index: usize,
        file_contents: Result<Vec<u8>, String>,
        digest: Option<&str>,
    ) -> (r: SkipStep)
        requires
            index < old(self).locks.len(),
        ensures
            final(self).locks.len() == old(self).locks.len(),
            forall|j: int|
                0 <= j < old(self).locks.len() && j != index ==> #[trigger] final(self).locks@[j]
                    == old(self).locks@[j],
            final(self).font == old(self).font,
            final(self).date == old(self).date,
            match file_contents {
                Err(e) => {
                    &&& final(self).locks@[index as int]@ == old(self).locks@[index as int]@
                    &&& r matches SkipStep::Download(DownloadReason::HashFailed(m)) && m@
                        == "Failed to hash file at "@ + old(
                        self,
                    ).locks@[index as int].asset_file_path@ + ": "@ + e@
                },
                Ok(data) => {
                    &&& final(self).locks@[index as int]@ == (LockView {
                        checksum: checksum_of(data@),
                        ..old(self).locks@[index as int]@
                    })
                    &&& match digest {
                        None => r matches SkipStep::Download(DownloadReason::NoDigest),
                        Some(d) => if checksum_of(data@) == expected_checksum(d@) {
                            r matches SkipStep::Ask(SkipQuestion::ChecksumVerified)
                        } else {
                            r matches SkipStep::Ask(SkipQuestion::ChecksumDiffers { local, expected })
                                && local@ == checksum_of(data@) && expected@ == expected_checksum(d@)
                        },
                    }
                },
            },
    {
        match self.refresh_lock_checksum(index, file_contents) {
            Err(m) => SkipStep::Download(DownloadReason::HashFailed(m)),
            Ok(()) => match digest {
                None => SkipStep::Download(DownloadReason::NoDigest),
                Some(d) => {
                    let expected = match str_strip_prefix(d, "sha256:") {
                        Some(rest) => rest,
                        None => d,
                    };
                    let local = self.locks[index].checksum.clone();
                    if str_eq(local.as_str(), expected) {
                        SkipStep::Ask(SkipQuestion::ChecksumVerified)
                    } else {
                        SkipStep::Ask(
                            SkipQuestion::ChecksumDiffers { local, expected: expected.to_owned() },
                        )
                    }
                },
            },
        }
    }

    /// The position of the first record named `name`, if any.
    pub fn find_lock_index(&self, name: &str) -> (r: Option<usize>)
        ensures
            match r {
                Some(i) => is_first_named(locks_view(self.locks@), name@, i as int),
                None => !contains_name(locks_view(self.locks@), name@),
            },
    {
        let ghost ls = locks_view(self.locks@);
        let mut i: usize = 0;
        while i < self.locks.len()
            invariant
                ls == locks_view(self.locks@),
                i <= self.locks.len(),
                forall|j: int| 0 <= j < i ==> ls[j].name != name@,
            decreases self.locks.len() - i,
        {
            if str_eq(self.locks[i].name.as_str(), name) {
                return Some(i);
            }
            i = i + 1;
        }
        None
    }

    /// Puts `lock` in place of the record of the same name, or appends it.
    pub fn upsert_lock(&mut self, lock: Lock)
        ensures
            locks_view(final(self).locks@) == upserted(locks_view(old(self).locks@), lock@),
            final(self).font == old(self).font,
            final(self).date == old(self).date,
    {
        let ghost ls = locks_view(self.locks@);
        match self.find_lock_index(lock.name.as_str()) {
            Some(i) => {
                proof {
                    lemma_first_named(ls, lock@.name);
                }
                self.locks.set(i, lock);
                assert(locks_view(self.locks@) =~= ls.update(i as int, lock@));
            },
            None => {
                self.locks.push(lock);
                assert(locks_view(self.locks@) =~= ls.push(lock@));
            },
        }
    }

    /// Refreshes the checksum of the record at `index` from the contents of its
    /// archive, as `Lock::refresh_checksum` does; the other records stay.
    pub fn refresh_lock_checksum(&mut self, index: usize, file_contents: Result<Vec<u8>, String>) -> (r:
        Result<(), String>)
        requires
            index < old(self).locks.len(),
        ensures
            final(self).locks.len() == old(self).locks.len(),
            forall|j: int|
                0 <= j < old(self).locks.len() && j != index ==> #[trigger] final(self).locks@[j]
                    == old(self).locks@[j],
            final(self).font == old(self).font,
            final(self).date == old(self).date,
            match file_contents {
                Ok(data) => {
                    &&& r is Ok
                    &&& final(self).locks@[index as int]@ == (LockView {
                        checksum: checksum_of(data@),
                        ..old(self).locks@[index as int]@
                    })
                },
                Err(e) => {
                    &&& final(self).locks@[index as int]@ == old(self).locks@[index as int]@
                    &&& r matches Err(m) && m@ == "Failed to hash file at "@ + old(
                        self,
                    ).locks@[index as int].asset_file_path@ + ": "@ + e@
                },
            },
    {
        let mut lock = self.locks[index].clone();
        let r = lock.refresh_checksum(file_contents);
        self.locks.set(index, lock);
        r
    }
}

/// Last step: whether the download is skipped, given the user's yes or no to
/// the question asked.
pub fn skip_answer(question: &SkipQuestion, yes: bool) -> (skip: bool)
    ensures
        skip == match question {
            SkipQuestion::ChecksumVerified => yes,
            SkipQuestion::ChecksumDiffers { .. } => !yes,
        },
{
    match question {
        SkipQuestion::ChecksumVerified => yes,
        SkipQuestion::ChecksumDiffers { .. } => !yes,
    }
}

} // verus!
