//! Releases and assets of the localisation repository, and the GitHub URLs
//! they are fetched from.

use vstd::prelude::*;
use vstd::utf8::{decode_utf8, encode_utf8, is_char_boundary};
use crate::text::{
    join, join_path, lemma_split_on_slash_concat, lemma_split_on_slash_no_slash, split_on_slash, str_eq,
    str_strip_suffix, strip_prefix, strip_suffix,
};
use crate::weburl::{parse_url, parsed_url, path_segments, url_path_segments, UrlParts, UrlPartsView};

verus! {

broadcast use {
    vstd::utf8::encode_utf8_decode_utf8,
    vstd::utf8::encode_utf8_valid_utf8,
    vstd::utf8::valid_utf8_split,
    vstd::utf8::is_char_boundary_iff_not_is_continuation_byte,
};

/// A downloadable file of a release.
pub struct AssetWrapper {
    pub name: String,
    /// The digest GitHub gives for the file, such as `sha256:...`.
    pub digest: Option<String>,
    pub browser_download_url: String,
}

/// A release of the localisation repository.
pub struct ReleaseWrapper {
    pub tag_name: String,
    pub name: Option<String>,
    pub assets: Vec<AssetWrapper>,
}

impl AssetWrapper {
    /// How an asset is listed for selection: its name.
    pub fn to_string(&self) -> (r: String)
        ensures
            r@ == self.name@,
    {
        self.name.clone()
    }
}

/// The characters that the bytes `[i, j)` of the UTF-8 encoding of `s` encode.
pub open spec fn byte_piece(s: Seq<char>, i: int, j: int) -> Seq<char> {
    decode_utf8(encode_utf8(s).subrange(i, j))
}

/// A release name of ten or more bytes can be cut at bytes 4, 6, 8 and 10
/// (as it can when those bytes are ASCII digits).
pub open spec fn release_name_cuttable(n: Seq<char>) -> bool {
    let b = encode_utf8(n);
    b.len() >= 10 ==> {
        &&& is_char_boundary(b, 4)
        &&& is_char_boundary(b, 6)
        &&& is_char_boundary(b, 8)
        &&& is_char_boundary(b, 10)
    }
}

/// How a release name is shown: a name of ten or more bytes `YYYYMMDDRR...` as
/// `YYYY-MM-DD [#RR]`, a shorter one as it is, a missing or empty one as
/// `No Release Name`.
pub open spec fn release_name_label(name: Option<Seq<char>>) -> Seq<char> {
    match name {
        Some(n) => if n.len() == 0 {
            "No Release Name"@
        } else if encode_utf8(n).len() >= 10 {
            byte_piece(n, 0, 4) + "-"@ + byte_piece(n, 4, 6) + "-"@ + byte_piece(n, 6, 8) + " [#"@
                + byte_piece(n, 8, 10) + "]"@
        } else {
            n
        },
        None => "No Release Name"@,
    }
}

/// How a release is listed for selection.
pub open spec fn release_label(tag: Seq<char>, name: Option<Seq<char>>) -> Seq<char> {
    "Tag: "@ + tag + " - ("@ + release_name_label(name) + ")"@
}

/// Cutting valid UTF-8 at two character boundaries gives valid UTF-8, and a
/// boundary between them stays one, shifted.
proof fn lemma_cut(b: Seq<u8>, lo: int, i: int, hi: int)
    requires
        vstd::utf8::valid_utf8(b),
        0 <= lo <= i <= hi <= b.len(),
        is_char_boundary(b, lo),
        is_char_boundary(b, i),
        is_char_boundary(b, hi),
    ensures
        vstd::utf8::valid_utf8(b.subrange(lo, hi)),
        is_char_boundary(b.subrange(lo, hi), i - lo),
{
    let h = b.subrange(0, hi);
    vstd::utf8::valid_utf8_split(b, hi);
    if lo < hi {
        vstd::utf8::is_char_boundary_iff_not_is_continuation_byte(b, lo);
        vstd::utf8::is_char_boundary_iff_not_is_continuation_byte(h, lo);
        assert(h[lo] == b[lo]);
    } else {
        vstd::utf8::is_char_boundary_start_end_of_seq(h);
    }
    vstd::utf8::valid_utf8_split(h, lo);
    let c = b.subrange(lo, hi);
    assert(h.subrange(lo, h.len() as int) =~= c);
    vstd::utf8::is_char_boundary_start_end_of_seq(c);
    if lo < i < hi {
        vstd::utf8::is_char_boundary_iff_not_is_continuation_byte(b, i);
        vstd::utf8::is_char_boundary_iff_not_is_continuation_byte(c, i - lo);
        assert(c[i - lo] == b[i]);
    }
}

fn dated_name_label(name: &str) -> (r: String)
    requires
        encode_utf8(name@).len() >= 10,
        release_name_cuttable(name@),
    ensures
        r@ == byte_piece(name@, 0, 4) + "-"@ + byte_piece(name@, 4, 6) + "-"@ + byte_piece(
            name@,
            6,
            8,
        ) + " [#"@ + byte_piece(name@, 8, 10) + "]"@,
{
    let ghost b = encode_utf8(name@);
    proof {
        vstd::utf8::is_char_boundary_start_end_of_seq(b);
        lemma_cut(b, 0, 10, b.len() as int);
    }
    let (first, _) = name.split_at(10);
    assert(encode_utf8(first@) =~= b.subrange(0, 10));
    proof {
        lemma_cut(b, 0, 4, 10);
    }
    let (year, rest6) = first.split_at(4);
    assert(encode_utf8(rest6@) =~= b.subrange(4, 10));
    proof {
        lemma_cut(b, 4, 6, 10);
    }
    let (month, rest4) = rest6.split_at(2);
    assert(encode_utf8(rest4@) =~= b.subrange(6, 10));
    proof {
        lemma_cut(b, 6, 8, 10);
    }
    let (day, rev) = rest4.split_at(2);
    assert(encode_utf8(year@) =~= b.subrange(0, 4));
    assert(encode_utf8(month@) =~= b.subrange(4, 6));
    assert(encode_utf8(day@) =~= b.subrange(6, 8));
    assert(encode_utf8(rev@) =~= b.subrange(8, 10));
    assert(year@ == byte_piece(name@, 0, 4));
    assert(month@ == byte_piece(name@, 4, 6));
    assert(day@ == byte_piece(name@, 6, 8));
    assert(rev@ == byte_piece(name@, 8, 10));
    let mut r = String::from_str(year);
    r.append("-");
    r.append(month);
    r.append("-");
    r.append(day);
    r.append(" [#");
    r.append(rev);
    r.append("]");
    r
}

impl ReleaseWrapper {
    /// How a release is listed for selection: `Tag: <tag> - (<name label>)`.
    pub fn to_string(&self) -> (r: String)
        requires
            self.name matches Some(n) ==> release_name_cuttable(n@),
        ensures
            r@ == release_label(self.tag_name@, crate::text::opt_string_view(self.name)),
    {
        let mut r = String::from_str("Tag: ");
        r.append(self.tag_name.as_str());
        r.append(" - (");
        match &self.name {
            Some(n) => {
                if n.as_str().unicode_len() == 0 {
                    r.append("No Release Name");
                } else if n.as_str().as_bytes().len() >= 10 {
                    let label = dated_name_label(n.as_str());
                    r.append(label.as_str());
                } else {
                    r.append(n.as_str());
                }
            },
            None => {
                r.append("No Release Name");
            },
        }
        r.append(")");
        r
    }
}

/// The assets of a release, in the order the release lists them.
pub fn get_assets(release: ReleaseWrapper) -> (r: Vec<AssetWrapper>)
    ensures
        r@ == release.assets@,
{
    release.assets
}

/// The owner and repository that a GitHub URL names: the URL's domain is
/// `github.com` and its path has at least two segments, the owner and the
/// repository (without a `.git` suffix), neither empty.
pub open spec fn github_repo_of(u: UrlPartsView) -> Option<(Seq<char>, Seq<char>)> {
    if u.domain != Some("github.com"@) {
        None
    } else {
        match path_segments(u.path) {
            None => None,
            Some(segs) => if segs.len() < 2 {
                None
            } else {
                let owner = segs[0];
                let repo = match strip_suffix(segs[1], ".git"@) {
                    Some(r) => r,
                    None => segs[1],
                };
                if owner.len() == 0 || repo.len() == 0 {
                    None
                } else {
                    Some((owner, repo))
                }
            },
        }
    }
}

/// No `/` in the text.
pub open spec fn slash_free(s: Seq<char>) -> bool {
    forall|i: int| 0 <= i < s.len() ==> s[i] != '/'
}

/// A GitHub repository URL is read from its first two path segments alone:
/// for a `github.com` URL whose path is `/<owner>/<repo>` followed by nothing
/// or by `/` and anything at all, the result is the owner and the repository
/// (without a `.git` suffix) when both are non-empty, and none otherwise.
pub proof fn lemma_github_repo_reads_first_two_segments(
    u: UrlPartsView,
    owner: Seq<char>,
    repo: Seq<char>,
    rest: Seq<char>,
)
    requires
        u.domain == Some("github.com"@),
        slash_free(owner),
        slash_free(repo),
        rest.len() == 0 || rest[0] == '/',
        u.path == seq!['/'] + owner + seq!['/'] + repo + rest,
    ensures
        ({
            let name = match strip_suffix(repo, ".git"@) {
                Some(r) => r,
                None => repo,
            };
            github_repo_of(u) == if owner.len() > 0 && name.len() > 0 {
                Some((owner, name))
            } else {
                None::<(Seq<char>, Seq<char>)>
            }
        }),
{
    let after = owner + seq!['/'] + repo + rest;
    assert(u.path.subrange(0, 1) =~= seq!['/']);
    assert(u.path.subrange(1, u.path.len() as int) =~= after);
    assert(strip_prefix(u.path, seq!['/']) == Some(after));
    lemma_split_on_slash_no_slash(owner);
    lemma_split_on_slash_no_slash(repo);
    if rest.len() == 0 {
        assert(after =~= owner + seq!['/'] + repo);
        lemma_split_on_slash_concat(owner, repo);
        assert(split_on_slash(after) =~= seq![owner, repo]);
    } else {
        let tail = rest.drop_first();
        assert(rest =~= seq!['/'] + tail);
        assert(after =~= owner + seq!['/'] + (repo + seq!['/'] + tail));
        lemma_split_on_slash_concat(owner, repo + seq!['/'] + tail);
        lemma_split_on_slash_concat(repo, tail);
        let segs = split_on_slash(after);
        assert(segs =~= seq![owner] + (seq![repo] + split_on_slash(tail)));
        assert(segs[0] == owner);
        assert(segs[1] == repo);
    }
}

pub open spec fn opt_pair_view(r: Option<(String, String)>) -> Option<(Seq<char>, Seq<char>)> {
    match r {
        Some((a, b)) => Some((a@, b@)),
        None => None,
    }
}

/// The owner and repository named by a parsed URL, if it is a GitHub repository URL.
pub fn github_repo(url: &UrlParts) -> (r: Option<(String, String)>)
    ensures
        opt_pair_view(r) == github_repo_of(url@),
{
    let is_github = match &url.domain {
        Some(d) => str_eq(d.as_str(), "github.com"),
        None => false,
    };
    if !is_github {
        return None;
    }
    let segs = match url_path_segments(url.path.as_str()) {
        Some(v) => v,
        None => return None,
    };
    if segs.len() < 2 {
        return None;
    }
    let owner = segs[0].as_str();
    let repo_segment = segs[1].as_str();
    let repo = match str_strip_suffix(repo_segment, ".git") {
        Some(r) => r,
        None => repo_segment,
    };
    if owner.unicode_len() == 0 || repo.unicode_len() == 0 {
        return None;
    }
    Some((owner.to_owned(), repo.to_owned()))
}

/// The owner and repository of a GitHub repository URL; `None` for text that
/// is not a URL or a URL of anything else.
pub fn parse_github(url_str: &str) -> (r: Option<(String, String)>)
    ensures
        match parsed_url(url_str@) {
            Err(_) => r is None,
            Ok(u) => opt_pair_view(r) == github_repo_of(u),
        },
{
    match parse_url(url_str) {
        Ok(parts) => github_repo(&parts),
        Err(_) => None,
    }
}

/// The releases of a repository, refused when there are none.
pub fn nonempty_releases(releases: Vec<ReleaseWrapper>) -> (r: Result<Vec<ReleaseWrapper>, String>)
    ensures
        releases@.len() == 0 ==> (r matches Err(m) && m@ == "No releases found for this repository."@),
        releases@.len() > 0 ==> r == Ok::<Vec<ReleaseWrapper>, String>(releases),
{
    if releases.len() == 0 {
        Err(String::from_str("No releases found for this repository."))
    } else {
        Ok(releases)
    }
}

/// The file name under which the font archive is cached: the last segment of
/// the font URL's path when there is one and it is not empty, else
/// `LLCCN-Font.7z`.
pub open spec fn font_archive_file_name(u: UrlPartsView) -> Seq<char> {
    match path_segments(u.path) {
        Some(segs) => if segs.len() > 0 && segs.last().len() > 0 {
            segs.last()
        } else {
            "LLCCN-Font.7z"@
        },
        None => "LLCCN-Font.7z"@,
    }
}

/// The cached font archive is named after the last segment of the URL's path
/// whenever that segment is not empty, however many segments come before it:
/// for a path `<prefix>/<name>` with a non-empty `name` holding no `/` (and a
/// prefix that is empty or starts with `/`), the file name is `name`.
pub proof fn lemma_font_archive_named_by_last_segment(u: UrlPartsView, prefix: Seq<char>, name: Seq<char>)
    requires
        prefix.len() == 0 || prefix[0] == '/',
        name.len() > 0,
        slash_free(name),
        u.path == prefix + seq!['/'] + name,
    ensures
        font_archive_file_name(u) == name,
{
    lemma_split_on_slash_no_slash(name);
    assert(u.path.subrange(0, 1) =~= seq!['/']);
    if prefix.len() == 0 {
        assert(u.path.subrange(1, u.path.len() as int) =~= name);
        assert(strip_prefix(u.path, seq!['/']) == Some(name));
    } else {
        let inner = prefix.drop_first();
        assert(u.path.subrange(1, u.path.len() as int) =~= inner + seq!['/'] + name);
        assert(strip_prefix(u.path, seq!['/']) == Some(inner + seq!['/'] + name));
        lemma_split_on_slash_concat(inner, name);
        assert(split_on_slash(inner + seq!['/'] + name).last() == name);
    }
}

/// Where the font archive is cached: its file name under the cache directory.
pub fn get_font_archive_file_path(app_cache_dir: &str, font_url: &UrlParts) -> (r: String)
    ensures
        r@ == join_path(app_cache_dir@, font_archive_file_name(font_url@)),
{
    let name = match url_path_segments(font_url.path.as_str()) {
        Some(segs) => {
            if segs.len() > 0 && segs[segs.len() - 1].as_str().unicode_len() > 0 {
                segs[segs.len() - 1].clone()
            } else {
                String::from_str("LLCCN-Font.7z")
            }
        },
        None => String::from_str("LLCCN-Font.7z"),
    };
    join(app_cache_dir, name.as_str())
}

/// The name under which the font archive is recorded: the archive's file name
/// when it has one, else `LLCCN-Font.7z`.
pub fn font_lock_name(archive_file_name: Option<&str>) -> (r: String)
    ensures
        r@ == match archive_file_name {
            Some(n) => n@,
            None => "LLCCN-Font.7z"@,
        },
{
    match archive_file_name {
        Some(n) => n.to_owned(),
        None => String::from_str("LLCCN-Font.7z"),
    }
}

} // verus!
