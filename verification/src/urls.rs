//! URL parsing through the `url` crate, reduced to the parts the library
//! reads, and the splitting of a URL path into segments.

use vstd::prelude::*;
use crate::text::{chars_of, has_prefix};

verus! {

/// The parts of a parsed URL that the library reads.
#[derive(Debug, Clone, PartialEq, Eq)]
pub struct UrlParts {
    /// The serialization of the URL.
    pub href: String,
    /// The scheme, without the trailing ':'.
    pub scheme: String,
    /// The host, for URLs that have one.
    pub host: Option<String>,
    /// The path.
    pub path: String,
}

/// The parts of a parsed URL as plain values: (serialization, scheme,
/// host, path).
pub type UrlView = (Seq<char>, Seq<char>, Option<Seq<char>>, Seq<char>);

/// The view of an optional string.
pub open spec fn opt_view(o: Option<String>) -> Option<Seq<char>> {
    match o {
        Some(s) => Some(s@),
        None => None,
    }
}

impl UrlParts {
    pub open spec fn view_parts(&self) -> UrlView {
        (self.href@, self.scheme@, opt_view(self.host), self.path@)
    }
}

/// The view of a parse result.
pub open spec fn parse_result_view(r: Result<UrlParts, String>) -> Result<UrlView, Seq<char>> {
    match r {
        Ok(p) => Ok(p.view_parts()),
        Err(e) => Err(e@),
    }
}

/// What `url::Url::parse` gives for `input`: the serialization
/// (`Url::as_str`), scheme, host (`Url::host_str`) and path of the parsed
/// URL, or the text (`Display`) of the parse error.
pub uninterp spec fn url_parse_result(input: Seq<char>) -> Result<UrlView, Seq<char>>;

/// Parses with `url::Url::parse` and reads the parts of the result. The
/// parser lower-cases the scheme it reads up to the first ':', so an input
/// that starts "http://" or "https://" and parses has that scheme; and the
/// serialization of an http(s) URL is its scheme, ':' and the "//" before
/// its authority, then the rest.
#[verifier::external_body]
fn url_parse(input: &str) -> (r: Result<UrlParts, String>)
    ensures
        url_parse_result(input@) == parse_result_view(r),
        r matches Ok(p) ==> (has_prefix(input@, "http://"@) ==> p.scheme@ == "http"@),
        r matches Ok(p) ==> (has_prefix(input@, "https://"@) ==> p.scheme@ == "https"@),
        r matches Ok(p) ==> ((p.scheme@ == "http"@ || p.scheme@ == "https"@) ==> has_prefix(p.href@, p.scheme@ + "://"@)),
{
    match url::Url::parse(input) {
        Ok(u) => Ok(UrlParts {
            href: u.as_str().to_string(),
            scheme: u.scheme().to_string(),
            host: match u.host_str() {
                Some(h) => Some(h.to_string()),
                None => None,
            },
            path: u.path().to_string(),
        }),
        Err(e) => Err(e.to_string()),
    }
}

/// Parses a URL into the parts the library reads.
pub fn parse_url(input: &str) -> (r: Result<UrlParts, String>)
    ensures
        url_parse_result(input@) == parse_result_view(r),
        r matches Ok(p) ==> (has_prefix(input@, "http://"@) ==> p.scheme@ == "http"@),
        r matches Ok(p) ==> (has_prefix(input@, "https://"@) ==> p.scheme@ == "https"@),
        r matches Ok(p) ==> ((p.scheme@ == "http"@ || p.scheme@ == "https"@) ==> has_prefix(p.href@, p.scheme@ + "://"@)),
{
    url_parse(input)
}

/// `s` split at each `sep`, as `str::split` does: one more piece than
/// there are separators.
pub open spec fn split_char(s: Seq<char>, sep: char) -> Seq<Seq<char>>
    decreases s.len(),
{
    if s.len() == 0 {
        seq![Seq::<char>::empty()]
    } else {
        let r = split_char(s.drop_last(), sep);
        if s.last() == sep {
            r.push(Seq::<char>::empty())
        } else {
            r.update(r.len() - 1, r.last().push(s.last()))
        }
    }
}

proof fn lemma_split_nonempty(s: Seq<char>, sep: char)
    ensures
        split_char(s, sep).len() >= 1,
    decreases s.len(),
{
    if s.len() > 0 {
        lemma_split_nonempty(s.drop_last(), sep);
    }
}

/// The views of a vector of character vectors.
pub open spec fn pieces_view(v: Seq<Vec<char>>) -> Seq<Seq<char>> {
    Seq::new(v.len(), |i: int| v[i]@)
}

/// Splits characters at each `sep`.
pub fn split_chars(s: &[char], sep: char) -> (r: Vec<Vec<char>>)
    ensures
        pieces_view(r@) == split_char(s@, sep),
{
    let mut done: Vec<Vec<char>> = Vec::new();
    let mut cur: Vec<char> = Vec::new();
    let mut i: usize = 0;
    assert(s@.subrange(0, 0) =~= Seq::<char>::empty());
    assert(pieces_view(done@).push(cur@) =~= split_char(s@.subrange(0, 0), sep));
    while i < s.len()
        invariant
            i <= s@.len(),
            pieces_view(done@).push(cur@) == split_char(s@.subrange(0, i as int), sep),
        decreases s@.len() - i,
    {
        let ghost prefix = s@.subrange(0, i as int + 1);
        assert(prefix.drop_last() =~= s@.subrange(0, i as int));
        assert(prefix.last() == s@[i as int]);
        proof {
            lemma_split_nonempty(s@.subrange(0, i as int), sep);
        }
        if s[i] == sep {
            let finished = cur;
            done.push(finished);
            cur = Vec::new();
            assert(pieces_view(done@).push(cur@) =~= split_char(prefix, sep));
        } else {
            let ghost old_done = pieces_view(done@);
            cur.push(s[i]);
            assert(pieces_view(done@).push(cur@) =~= split_char(prefix, sep));
        }
        i = i + 1;
    }
    assert(s@.subrange(0, s@.len() as int) =~= s@);
    done.push(cur);
    assert(pieces_view(done@) =~= split_char(s@, sep));
    done
}

/// The path segments of a URL, as `Url::path_segments` gives them: the
/// path after its leading '/' split at each '/', or none for a path
/// without a leading '/'.
pub open spec fn path_segments_of(path: Seq<char>) -> Option<Seq<Seq<char>>> {
    if path.len() > 0 && path[0] == '/' {
        Some(split_char(path.subrange(1, path.len() as int), '/'))
    } else {
        None
    }
}

/// The path segments of a parsed URL.
pub fn path_segments(url: &UrlParts) -> (r: Option<Vec<Vec<char>>>)
    ensures
        r matches Some(v) ==> path_segments_of(url.path@) == Some(pieces_view(v@)),
        r is None ==> path_segments_of(url.path@) is None,
{
    let p = chars_of(url.path.as_str());
    if p.len() > 0 && p[0] == '/' {
        let mut rest: Vec<char> = Vec::new();
        let mut i: usize = 1;
        while i < p.len()
            invariant
                1 <= i <= p@.len(),
                rest@ == p@.subrange(1, i as int),
            decreases p@.len() - i,
        {
            rest.push(p[i]);
            i = i + 1;
        }
        Some(split_chars(rest.as_slice(), '/'))
    } else {
        None
    }
}

/// A split always has at least one piece.
pub proof fn lemma_split_nonempty_pub(s: Seq<char>, sep: char)
    ensures
        split_char(s, sep).len() >= 1,
{
    lemma_split_nonempty(s, sep);
}

} // verus!
