//! URLs as the updater reads them: the normalised text, the domain and the path.

use vstd::prelude::*;
use crate::text::{opt_string_view, split_on_slash, split_slash, str_strip_prefix, strip_prefix};

verus! {

/// The parts of a parsed URL that the updater reads.
pub struct UrlParts {
    /// The URL's normalised text.
    pub serialization: String,
    /// The host when it is a domain name (not an IP address), else `None`.
    pub domain: Option<String>,
    /// The path, percent-encoded, as the URL holds it.
    pub path: String,
}

pub struct UrlPartsView {
    pub serialization: Seq<char>,
    pub domain: Option<Seq<char>>,
    pub path: Seq<char>,
}

impl View for UrlParts {
    type V = UrlPartsView;

    open spec fn view(&self) -> UrlPartsView {
        UrlPartsView {
            serialization: self.serialization@,
            domain: opt_string_view(self.domain),
            path: self.path@,
        }
    }
}

/// What `url::Url::parse` makes of `text`: its serialization, domain and path,
/// or, when the text is not a URL, the message (`Display` text) of the error.
pub uninterp spec fn parsed_url(text: Seq<char>) -> Result<UrlPartsView, Seq<char>>;

/// The path's segments as `Url::path_segments` gives them: the pieces between
/// `/` after the leading `/`, or `None` when the path does not start with `/`.
pub open spec fn path_segments(path: Seq<char>) -> Option<Seq<Seq<char>>> {
    match strip_prefix(path, seq!['/']) {
        Some(rest) => Some(split_on_slash(rest)),
        None => None,
    }
}

/// Calls `url::Url::parse`, then `as_str`, `domain` and `path` on the result.
/// Trusted: the parts, or the message of the parse error, are a function of
/// the text alone (named `parsed_url`).
#[verifier::external_body]
fn url_parse(text: &str) -> (r: Result<UrlParts, String>)
    ensures
        match r {
            Ok(p) => parsed_url(text@) == Ok::<UrlPartsView, Seq<char>>(p@),
            Err(e) => parsed_url(text@) == Err::<UrlPartsView, Seq<char>>(e@),
        },
{
    match url::Url::parse(text) {
        Ok(u) => Ok(
            UrlParts {
                serialization: u.as_str().to_string(),
                domain: u.domain().map(|d| d.to_string()),
                path: u.path().to_string(),
            },
        ),
        Err(e) => Err(e.to_string()),
    }
}

/// Parses `text` as a URL; on failure, the parser's message.
pub fn parse_url(text: &str) -> (r: Result<UrlParts, String>)
    ensures
        match r {
            Ok(p) => parsed_url(text@) == Ok::<UrlPartsView, Seq<char>>(p@),
            Err(e) => parsed_url(text@) == Err::<UrlPartsView, Seq<char>>(e@),
        },
{
    url_parse(text)
}

/// The segments of a URL path, as `Url::path_segments` gives them.
pub fn url_path_segments(path: &str) -> (r: Option<Vec<String>>)
    ensures
        match r {
            Some(v) => path_segments(path@) == Some(v@.map_values(|x: String| x@)),
            None => path_segments(path@) is None,
        },
{
    proof {
        reveal_strlit("/");
        assert("/"@ =~= seq!['/']);
    }
    match str_strip_prefix(path, "/") {
        Some(rest) => Some(split_slash(rest)),
        None => None,
    }
}

} // verus!
