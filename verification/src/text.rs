//! Character-level helpers on strings: whitespace trimming, ASCII case folding,
//! prefix stripping and `/`-separated path joining.

use vstd::prelude::*;

verus! {

/// The character sequence held by an optional string.
pub open spec fn opt_string_view(o: Option<String>) -> Option<Seq<char>> {
    match o {
        Some(s) => Some(s@),
        None => None,
    }
}

/// The character sequence held by an optional string slice.
pub open spec fn opt_str_view(o: Option<&str>) -> Option<Seq<char>> {
    match o {
        Some(s) => Some(s@),
        None => None,
    }
}

/// Unicode `White_Space`, the set of characters that `str::trim` removes.
pub open spec fn is_white_space(c: char) -> bool {
    let u: u32 = c as u32;
    ||| 0x9 <= u <= 0xD
    ||| u == 0x20
    ||| u == 0x85
    ||| u == 0xA0
    ||| u == 0x1680
    ||| 0x2000 <= u <= 0x200A
    ||| u == 0x2028
    ||| u == 0x2029
    ||| u == 0x202F
    ||| u == 0x205F
    ||| u == 0x3000
}

/// `s` without its leading whitespace.
pub open spec fn trim_start(s: Seq<char>) -> Seq<char>
    decreases s.len(),
{
    if s.len() > 0 && is_white_space(s[0]) {
        trim_start(s.drop_first())
    } else {
        s
    }
}

/// `s` without its trailing whitespace.
pub open spec fn trim_end(s: Seq<char>) -> Seq<char>
    decreases s.len(),
{
    if s.len() > 0 && is_white_space(s.last()) {
        trim_end(s.drop_last())
    } else {
        s
    }
}

/// `s` without leading and trailing whitespace.
pub open spec fn trim(s: Seq<char>) -> Seq<char> {
    trim_end(trim_start(s))
}

/// A character with ASCII upper case letters mapped to lower case.
pub open spec fn ascii_lower_char(c: char) -> char {
    if 'A' <= c && c <= 'Z' {
        ((c as u32) + 32) as char
    } else {
        c
    }
}

/// A string with ASCII upper case letters mapped to lower case.
pub open spec fn ascii_lower(s: Seq<char>) -> Seq<char> {
    s.map_values(|c: char| ascii_lower_char(c))
}

/// Whether `c` is Unicode whitespace.
pub fn is_white_space_char(c: char) -> (r: bool)
    ensures
        r == is_white_space(c),
{
    let u: u32 = c as u32;
    (0x9 <= u && u <= 0xD) || u == 0x20 || u == 0x85 || u == 0xA0 || u == 0x1680 || (0x2000 <= u
        && u <= 0x200A) || u == 0x2028 || u == 0x2029 || u == 0x202F || u == 0x205F || u == 0x3000
}

/// `c` with an ASCII upper case letter mapped to lower case.
pub fn to_ascii_lower_char(c: char) -> (r: char)
    ensures
        r == ascii_lower_char(c),
{
    if 'A' <= c && c <= 'Z' {
        let u: u8 = (c as u8) + 32;
        u as char
    } else {
        c
    }
}

/// The bounds `[lo, hi)` of the trimmed part of `s`, counted in characters.
pub fn trim_bounds(s: &str) -> (r: (usize, usize))
    ensures
        r.0 <= r.1 <= s@.len(),
        trim(s@) == s@.subrange(r.0 as int, r.1 as int),
{
    let n: usize = s.unicode_len();
    let mut lo: usize = 0;
    assert(s@.subrange(0, n as int) =~= s@);
    while lo < n && is_white_space_char(s.get_char(lo))
        invariant
            n == s@.len(),
            lo <= n,
            trim_start(s@) == trim_start(s@.subrange(lo as int, n as int)),
        decreases n - lo,
    {
        assert(s@.subrange(lo as int, n as int).drop_first() =~= s@.subrange(lo + 1, n as int));
        lo = lo + 1;
    }
    assert(trim_start(s@) == s@.subrange(lo as int, n as int));
    let mut hi: usize = n;
    while hi > lo && is_white_space_char(s.get_char(hi - 1))
        invariant
            n == s@.len(),
            lo <= hi <= n,
            trim(s@) == trim_end(s@.subrange(lo as int, hi as int)),
        decreases hi - lo,
    {
        assert(s@.subrange(lo as int, hi as int).drop_last() =~= s@.subrange(lo as int, hi - 1));
        hi = hi - 1;
    }
    (lo, hi)
}

/// Whether the characters `s[lo..hi)`, folded to ASCII lower case, spell `lit`.
pub fn lowered_range_equals(s: &str, lo: usize, hi: usize, lit: &str) -> (r: bool)
    requires
        lo <= hi <= s@.len(),
    ensures
        r == (ascii_lower(s@.subrange(lo as int, hi as int)) == lit@),
{
    let ghost part = s@.subrange(lo as int, hi as int);
    let m: usize = lit.unicode_len();
    if hi - lo != m {
        assert(ascii_lower(part).len() != lit@.len());
        return false;
    }
    let mut i: usize = 0;
    while i < m
        invariant
            lo <= hi <= s@.len(),
            hi - lo == m,
            m == lit@.len(),
            part == s@.subrange(lo as int, hi as int),
            i <= m,
            forall|j: int| 0 <= j < i ==> ascii_lower_char(#[trigger] part[j]) == lit@[j],
        decreases m - i,
    {
        if to_ascii_lower_char(s.get_char(lo + i)) != lit.get_char(i) {
            assert(ascii_lower(part)[i as int] != lit@[i as int]);
            return false;
        }
        i = i + 1;
    }
    assert(ascii_lower(part) =~= lit@);
    true
}

/// `base` joined with the relative or absolute path `seg`, as `Path::join` does
/// with `/` as separator: an absolute `seg` replaces `base`; otherwise a
/// separator is put between them unless `base` is empty or already ends in one.
pub open spec fn join_path(base: Seq<char>, seg: Seq<char>) -> Seq<char> {
    if seg.len() > 0 && seg[0] == '/' {
        seg
    } else if base.len() == 0 || base.last() == '/' {
        base + seg
    } else {
        base + seq!['/'] + seg
    }
}

/// Joins a path and a segment with `/`, as `Path::join` does.
pub fn join(base: &str, seg: &str) -> (r: String)
    ensures
        r@ == join_path(base@, seg@),
{
    let seg_len: usize = seg.unicode_len();
    if seg_len > 0 && seg.get_char(0) == '/' {
        return String::from_str(seg);
    }
    let base_len: usize = base.unicode_len();
    let mut r = String::from_str(base);
    if base_len > 0 && base.get_char(base_len - 1) != '/' {
        r.append("/");
        proof {
            reveal_strlit("/");
            assert("/"@ =~= seq!['/']);
        }
    }
    r.append(seg);
    r
}

/// `s` without the prefix `p`, or `None` when `s` does not start with `p`.
pub open spec fn strip_prefix(s: Seq<char>, p: Seq<char>) -> Option<Seq<char>> {
    if p.len() <= s.len() && s.subrange(0, p.len() as int) == p {
        Some(s.subrange(p.len() as int, s.len() as int))
    } else {
        None
    }
}

/// `s` without the prefix `p` when it has it, otherwise `s` unchanged.
pub open spec fn strip_prefix_or_keep(s: Seq<char>, p: Seq<char>) -> Seq<char> {
    match strip_prefix(s, p) {
        Some(rest) => rest,
        None => s,
    }
}

/// `s` without the prefix `p`, if it starts with it.
pub fn str_strip_prefix<'a>(s: &'a str, p: &str) -> (r: Option<&'a str>)
    ensures
        opt_str_view(r) == strip_prefix(s@, p@),
{
    let n: usize = s.unicode_len();
    let m: usize = p.unicode_len();
    if m > n {
        return None;
    }
    let mut i: usize = 0;
    while i < m
        invariant
            n == s@.len(),
            m == p@.len(),
            m <= n,
            i <= m,
            forall|j: int| 0 <= j < i ==> s@[j] == p@[j],
        decreases m - i,
    {
        if s.get_char(i) != p.get_char(i) {
            assert(s@.subrange(0, m as int)[i as int] != p@[i as int]);
            return None;
        }
        i = i + 1;
    }
    assert(s@.subrange(0, m as int) =~= p@);
    Some(s.substring_char(m, n))
}

/// String equality by contents.
pub fn str_eq(a: &str, b: &str) -> (r: bool)
    ensures
        r == (a@ == b@),
{
    let x = a.to_owned();
    let y = b.to_owned();
    x == y
}

/// `s` without the suffix `p`, or `None` when `s` does not end with `p`.
pub open spec fn strip_suffix(s: Seq<char>, p: Seq<char>) -> Option<Seq<char>> {
    if p.len() <= s.len() && s.subrange(s.len() - p.len(), s.len() as int) == p {
        Some(s.subrange(0, s.len() - p.len()))
    } else {
        None
    }
}

/// `s` without the suffix `p`, if it ends with it.
pub fn str_strip_suffix<'a>(s: &'a str, p: &str) -> (r: Option<&'a str>)
    ensures
        opt_str_view(r) == strip_suffix(s@, p@),
{
    let n: usize = s.unicode_len();
    let m: usize = p.unicode_len();
    if m > n {
        return None;
    }
    let base: usize = n - m;
    let mut i: usize = 0;
    while i < m
        invariant
            n == s@.len(),
            m == p@.len(),
            base == n - m,
            i <= m,
            forall|j: int| 0 <= j < i ==> s@[base + j] == p@[j],
        decreases m - i,
    {
        if s.get_char(base + i) != p.get_char(i) {
            assert(s@.subrange(base as int, n as int)[i as int] != p@[i as int]);
            return None;
        }
        i = i + 1;
    }
    assert(s@.subrange(base as int, n as int) =~= p@);
    Some(s.substring_char(0, base))
}

/// The pieces of `s` between `/` characters, in order, as `str::split('/')`
/// gives them: one more piece than there are separators.
pub open spec fn split_on_slash(s: Seq<char>) -> Seq<Seq<char>>
    decreases s.len(),
{
    if s.len() == 0 {
        seq![Seq::empty()]
    } else {
        let init = split_on_slash(s.drop_last());
        if s.last() == '/' {
            init.push(Seq::empty())
        } else {
            init.update(init.len() - 1, init.last().push(s.last()))
        }
    }
}

pub proof fn lemma_split_on_slash_nonempty(s: Seq<char>)
    ensures
        split_on_slash(s).len() >= 1,
    decreases s.len(),
{
    if s.len() > 0 {
        lemma_split_on_slash_nonempty(s.drop_last());
    }
}

/// Text without any `/` is a single piece.
pub proof fn lemma_split_on_slash_no_slash(s: Seq<char>)
    requires
        forall|i: int| 0 <= i < s.len() ==> s[i] != '/',
    ensures
        split_on_slash(s) == seq![s],
    decreases s.len(),
{
    if s.len() > 0 {
        lemma_split_on_slash_no_slash(s.drop_last());
        assert(s.drop_last().push(s.last()) =~= s);
    } else {
        assert(s =~= Seq::<char>::empty());
    }
}

/// Splitting at a `/` splits the two sides separately.
pub proof fn lemma_split_on_slash_concat(a: Seq<char>, b: Seq<char>)
    ensures
        split_on_slash(a + seq!['/'] + b) == split_on_slash(a) + split_on_slash(b),
    decreases b.len(),
{
    let s = a + seq!['/'] + b;
    if b.len() == 0 {
        assert(s.drop_last() =~= a);
        assert(split_on_slash(b) =~= seq![Seq::<char>::empty()]);
        assert(split_on_slash(s) =~= split_on_slash(a) + split_on_slash(b));
    } else {
        lemma_split_on_slash_concat(a, b.drop_last());
        lemma_split_on_slash_nonempty(b.drop_last());
        assert(s.drop_last() =~= a + seq!['/'] + b.drop_last());
        assert(s.last() == b.last());
        let x = split_on_slash(a);
        let y = split_on_slash(b.drop_last());
        if b.last() == '/' {
            assert(split_on_slash(s) =~= (x + y).push(Seq::empty()));
            assert(split_on_slash(b) =~= y.push(Seq::empty()));
            assert((x + y).push(Seq::<char>::empty()) =~= x + y.push(Seq::empty()));
        } else {
            assert(split_on_slash(b) =~= y.update(y.len() - 1, y.last().push(b.last())));
            assert((x + y).last() == y.last());
            assert((x + y).update((x + y).len() - 1, (x + y).last().push(b.last())) =~= x + y.update(
                y.len() - 1,
                y.last().push(b.last()),
            ));
        }
    }
}

/// The pieces of `s` between `/` characters.
pub fn split_slash(s: &str) -> (r: Vec<String>)
    ensures
        r@.map_values(|x: String| x@) == split_on_slash(s@),
{
    let n: usize = s.unicode_len();
    let mut segs: Vec<String> = Vec::new();
    let mut start: usize = 0;
    let mut i: usize = 0;
    assert(s@.take(0) =~= Seq::<char>::empty());
    while i < n
        invariant
            n == s@.len(),
            start <= i <= n,
            segs@.map_values(|x: String| x@).push(s@.subrange(start as int, i as int))
                == split_on_slash(s@.take(i as int)),
        decreases n - i,
    {
        proof {
            assert(s@.take(i + 1).drop_last() =~= s@.take(i as int));
            assert(s@.take(i + 1).last() == s@[i as int]);
            lemma_split_on_slash_nonempty(s@.take(i as int));
        }
        if s.get_char(i) == '/' {
            let piece = s.substring_char(start, i).to_owned();
            segs.push(piece);
            start = i + 1;
            assert(s@.subrange(start as int, (i + 1) as int) =~= Seq::<char>::empty());
            assert(segs@.map_values(|x: String| x@).push(s@.subrange(start as int, (i + 1) as int))
                =~= split_on_slash(s@.take(i + 1)));
        } else {
            assert(s@.subrange(start as int, (i + 1) as int) =~= s@.subrange(start as int, i as int).push(s@[i as int]));
            assert(segs@.map_values(|x: String| x@).push(s@.subrange(start as int, (i + 1) as int))
                =~= split_on_slash(s@.take(i + 1)));
        }
        i = i + 1;
    }
    let last = s.substring_char(start, n).to_owned();
    segs.push(last);
    assert(s@.take(n as int) =~= s@);
    assert(segs@.map_values(|x: String| x@) =~= split_on_slash(s@));
    segs
}

} // verus!
