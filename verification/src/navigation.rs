//! Normalization of what the user types into the address bar.

use vstd::prelude::*;
use crate::text::{
    chars_of, has_prefix, contains_seq, has_char, trim, trim_str, starts_with_str,
    chars_contain, chars_have, concat_chars, string_of, chars_eq,
};
use crate::urls::{url_parse_result, parse_url};

verus! {

/// Targets that are kept as typed: `about:`, `data:` and `file:` URLs.
pub open spec fn special_scheme(s: Seq<char>) -> bool {
    has_prefix(s, "about:"@) || has_prefix(s, "data:"@) || has_prefix(s, "file:"@)
}

/// An address on the web: one that starts "http://" or "https://".
pub open spec fn web_address(s: Seq<char>) -> bool {
    has_prefix(s, "http://"@) || has_prefix(s, "https://"@)
}

/// Targets on the local machine, which are reached over plain HTTP.
pub open spec fn localhost_target(s: Seq<char>) -> bool {
    has_prefix(s, "localhost"@) || has_prefix(s, "127."@) || has_prefix(s, "0.0.0.0"@)
}

/// Whether the target should get an `http://` prefix rather than `https://`.
pub open spec fn wants_http(s: Seq<char>) -> bool {
    localhost_target(s) || has_char(s, ':')
}

/// The result of parsing `candidate`: its serialization, or "invalid URL: "
/// followed by the parse error.
pub open spec fn parsed_href(candidate: Seq<char>) -> Result<Seq<char>, Seq<char>> {
    match url_parse_result(candidate) {
        Ok(p) => Ok(p.0),
        Err(e) => Err("invalid URL: "@ + e),
    }
}

/// The tail of normalization, once the target has been tried as a URL.
pub open spec fn normalized_by_prefix(t: Seq<char>) -> Result<Seq<char>, Seq<char>> {
    if contains_seq(t, "://"@) {
        Err("invalid URL"@)
    } else if wants_http(t) {
        parsed_href("http://"@ + t)
    } else {
        parsed_href("https://"@ + t)
    }
}

/// What the address bar makes of `input`.
///
/// The input is trimmed. An empty target is refused; `about:`, `data:` and
/// `file:` targets are kept; a target without "://" that is local or holds
/// ':' is parsed with an `http://` prefix. Otherwise a target that parses
/// as an http(s) URL gives its serialization, and one that parses with
/// another scheme is refused. What is left is refused if it holds "://",
/// and is otherwise parsed with an `http://` (local, or holding ':') or
/// `https://` prefix.
pub open spec fn normalized_url(input: Seq<char>) -> Result<Seq<char>, Seq<char>> {
    let t = trim(input);
    if t.len() == 0 {
        Err("navigation target is empty"@)
    } else if special_scheme(t) {
        Ok(t)
    } else if !contains_seq(t, "://"@) && wants_http(t) {
        parsed_href("http://"@ + t)
    } else {
        match url_parse_result(t) {
            Ok(p) => if p.1 == "http"@ || p.1 == "https"@ {
                Ok(p.0)
            } else if p.1.len() != 0 {
                Err("unsupported URL scheme: "@ + p.1)
            } else {
                normalized_by_prefix(t)
            },
            Err(_) => normalized_by_prefix(t),
        }
    }
}

fn is_special_scheme(value: &[char]) -> (r: bool)
    ensures
        r == special_scheme(value@),
{
    starts_with_str(value, "about:") || starts_with_str(value, "data:") || starts_with_str(value, "file:")
}

fn is_localhost_target(value: &[char]) -> (r: bool)
    ensures
        r == localhost_target(value@),
{
    starts_with_str(value, "localhost") || starts_with_str(value, "127.") || starts_with_str(value, "0.0.0.0")
}

/// A string made of a literal followed by characters.
fn join(prefix: &str, rest: &[char]) -> (r: String)
    ensures
        r@ == prefix@ + rest@,
{
    let p = chars_of(prefix);
    let all = concat_chars(p.as_slice(), rest);
    string_of(all.as_slice())
}

/// Parses `prefix` + `t` and reports its serialization.
fn parse_href(prefix: &str, t: &[char]) -> (r: Result<String, String>)
    ensures
        match r {
            Ok(s) => parsed_href(prefix@ + t@) == Ok::<Seq<char>, Seq<char>>(s@),
            Err(e) => parsed_href(prefix@ + t@) == Err::<Seq<char>, Seq<char>>(e@),
        },
        (prefix@ == "http://"@ || prefix@ == "https://"@) && r is Ok ==> web_address(r->Ok_0@),
        r is Err ==> r->Err_0@.len() > 0 && r->Err_0@[0] == 'i',
{
    let candidate = join(prefix, t);
    match parse_url(candidate.as_str()) {
        Ok(p) => {
            proof {
                reveal_strlit("http://");
                reveal_strlit("https://");
                reveal_strlit("http");
                reveal_strlit("https");
                reveal_strlit("://");
                if prefix@ == "http://"@ || prefix@ == "https://"@ {
                    assert(candidate@.subrange(0, prefix@.len() as int) =~= prefix@);
                    if prefix@ == "http://"@ {
                        assert("http://"@.len() <= candidate@.len());
                        assert(has_prefix(candidate@, "http://"@));
                        assert(p.scheme@ == "http"@);
                        assert("http"@ + "://"@ =~= "http://"@);
                    } else {
                        assert(has_prefix(candidate@, "https://"@));
                        assert(p.scheme@ == "https"@);
                        assert("https"@ + "://"@ =~= "https://"@);
                    }
                }
            }
            Ok(p.href)
        },
        Err(e) => {
            let ec = chars_of(e.as_str());
            proof {
                reveal_strlit("invalid URL: ");
            }
            Err(join("invalid URL: ", ec.as_slice()))
        },
    }
}

fn normalize_by_prefix(t: &[char]) -> (r: Result<String, String>)
    ensures
        match r {
            Ok(s) => normalized_by_prefix(t@) == Ok::<Seq<char>, Seq<char>>(s@),
            Err(e) => normalized_by_prefix(t@) == Err::<Seq<char>, Seq<char>>(e@),
        },
        r is Ok ==> web_address(r->Ok_0@),
        r is Err ==> r->Err_0@.len() > 0 && r->Err_0@[0] == 'i',
{
    proof {
        reveal_strlit("http://");
        reveal_strlit("https://");
        reveal_strlit("invalid URL");
    }
    let sep = chars_of("://");
    if chars_contain(t, sep.as_slice()) {
        return Err(join("invalid URL", &[]));
    }
    if is_localhost_target(t) || chars_have(t, ':') {
        parse_href("http://", t)
    } else {
        parse_href("https://", t)
    }
}

/// Normalizes what the user typed into a URL to navigate to, or says why
/// it cannot be navigated to.
pub fn normalize_url_input(input: &str) -> (r: Result<String, String>)
    ensures
        match r {
            Ok(s) => normalized_url(input@) == Ok::<Seq<char>, Seq<char>>(s@),
            Err(e) => normalized_url(input@) == Err::<Seq<char>, Seq<char>>(e@),
        },
        r matches Ok(s) ==> web_address(s@) || special_scheme(s@),
        has_prefix(trim(input@), "about:"@) || has_prefix(trim(input@), "data:"@) || has_prefix(trim(input@), "file:"@)
            ==> (r matches Ok(s) && s@ == trim(input@)),
        (r is Err && r->Err_0@ == "navigation target is empty"@) == (trim(input@).len() == 0),
{
    proof {
        reveal_strlit("navigation target is empty");
        reveal_strlit("unsupported URL scheme: ");
        reveal_strlit("http");
        reveal_strlit("https");
        reveal_strlit("://");
        reveal_strlit("http://");
        reveal_strlit("https://");
        assert("http"@ + "://"@ =~= "http://"@);
        assert("https"@ + "://"@ =~= "https://"@);
    }
    proof {
        if has_prefix(trim(input@), "about:"@) || has_prefix(trim(input@), "data:"@) || has_prefix(trim(input@), "file:"@) {
            law_special_addresses_kept(input@);
        }
    }
    let t = trim_str(input);
    if t.len() == 0 {
        return Err(join("navigation target is empty", &[]));
    }
    if is_special_scheme(t.as_slice()) {
        return Ok(string_of(t.as_slice()));
    }
    let sep = chars_of("://");
    let has_sep = chars_contain(t.as_slice(), sep.as_slice());
    if !has_sep && (is_localhost_target(t.as_slice()) || chars_have(t.as_slice(), ':')) {
        return parse_href("http://", t.as_slice());
    }
    let ts = string_of(t.as_slice());
    match parse_url(ts.as_str()) {
        Ok(parsed) => {
            let scheme = chars_of(parsed.scheme.as_str());
            let http = chars_of("http");
            let https = chars_of("https");
            if chars_eq(scheme.as_slice(), http.as_slice()) || chars_eq(scheme.as_slice(), https.as_slice()) {
                return Ok(parsed.href);
            }
            if scheme.len() != 0 {
                let e = join("unsupported URL scheme: ", scheme.as_slice());
                assert(e@[0] == 'u');
                assert("navigation target is empty"@[0] == 'n');
                return Err(e);
            }
            normalize_by_prefix(t.as_slice())
        },
        Err(_) => normalize_by_prefix(t.as_slice()),
    }
}

/// What the configured startup URL asks for.
pub open spec fn startup_url(value: Seq<char>) -> Result<Option<Seq<char>>, Seq<char>> {
    let t = trim(value);
    if t.len() == 0 || t == "about:blank"@ {
        Ok(None)
    } else {
        match normalized_url(t) {
            Ok(u) => Ok(Some(u)),
            Err(e) => Err(e),
        }
    }
}

/// Resolves the configured startup URL: nothing for an empty value or
/// "about:blank", else the normalized URL.
pub fn resolve_startup_url(value: &str) -> (r: Result<Option<String>, String>)
    ensures
        match r {
            Ok(Some(s)) => startup_url(value@) == Ok::<Option<Seq<char>>, Seq<char>>(Some(s@)),
            Ok(None) => startup_url(value@) == Ok::<Option<Seq<char>>, Seq<char>>(None),
            Err(e) => startup_url(value@) == Err::<Option<Seq<char>>, Seq<char>>(e@),
        },
{
    let t = trim_str(value);
    let blank = chars_of("about:blank");
    if t.len() == 0 || chars_eq(t.as_slice(), blank.as_slice()) {
        return Ok(None);
    }
    let ts = string_of(t.as_slice());
    match normalize_url_input(ts.as_str()) {
        Ok(u) => Ok(Some(u)),
        Err(e) => Err(e),
    }
}

/// An address whose trimmed text starts "about:", "data:" or "file:" is
/// taken as it is: normalization gives that trimmed text back unchanged.
pub proof fn law_special_addresses_kept(input: Seq<char>)
    requires
        has_prefix(trim(input), "about:"@) || has_prefix(trim(input), "data:"@) || has_prefix(trim(input), "file:"@),
    ensures
        normalized_url(input) == Ok::<Seq<char>, Seq<char>>(trim(input)),
{
    reveal_strlit("about:");
    reveal_strlit("data:");
    reveal_strlit("file:");
    assert(trim(input).len() > 0);
}

} // verus!
