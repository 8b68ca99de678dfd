//! The `cache <url>` command line.

use vstd::prelude::*;
use crate::text::{chars_of, has_prefix, str_eq, starts_with_str, concat_chars, string_of, owned, slice_chars, trim, trim_chars};
use crate::numbers::{parse_u64, parse_u64_spec, decimal_string, decimal_digits};
use crate::cache::{AssetMetadata, AssetStore, StorageMode, recorded_as, storage_mode_setting, same_asset};

verus! {

/// Options of the `cache` command.
#[derive(Debug, Clone)]
pub struct CacheCliOptions {
    pub url: String,
    pub profile: Option<String>,
    pub timeout_secs: u64,
    pub stats: bool,
    pub insecure: bool,
}

/// The options as plain values: (url, profile, timeout, stats, insecure).
pub type CacheOptionsView = (Seq<char>, Option<Seq<char>>, u64, bool, bool);

/// What the parser has gathered so far: (url, profile, timeout, stats,
/// insecure, whether the url was seen).
pub type CacheArgsState = (Option<Seq<char>>, Option<Seq<char>>, u64, bool, bool, bool);

/// The views of the arguments.
pub open spec fn args_view(args: Seq<String>) -> Seq<Seq<char>> {
    Seq::new(args.len(), |i: int| args[i]@)
}

/// The result once all arguments are read: the url is required.
pub open spec fn finish_cache_args(st: CacheArgsState) -> Result<CacheOptionsView, Seq<char>> {
    match st.0 {
        Some(url) => Ok((url, st.1, st.2, st.3, st.4)),
        None => Err("missing url"@),
    }
}

/// Reads the arguments from position `i` on.
///
/// `--profile` takes the next argument (none if there is none),
/// `--timeout` takes the next argument as a number of seconds, `--stats`
/// and `--insecure` are flags, the first argument that does not start
/// with "--" is the url, and anything else is refused.
pub open spec fn cache_args_from(args: Seq<Seq<char>>, i: int, st: CacheArgsState) -> Result<CacheOptionsView, Seq<char>>
    decreases args.len() + 2 - i,
{
    if i < 0 || i >= args.len() {
        finish_cache_args(st)
    } else {
        let a = args[i];
        if a == "--profile"@ {
            let profile = if i + 1 < args.len() { Some(args[i + 1]) } else { None };
            cache_args_from(args, i + 2, (st.0, profile, st.2, st.3, st.4, st.5))
        } else if a == "--timeout"@ {
            if i + 1 >= args.len() {
                Err("missing timeout value"@)
            } else {
                match parse_u64_spec(args[i + 1]) {
                    Some(n) => cache_args_from(args, i + 2, (st.0, st.1, n, st.3, st.4, st.5)),
                    None => Err("timeout must be integer seconds"@),
                }
            }
        } else if a == "--stats"@ {
            cache_args_from(args, i + 1, (st.0, st.1, st.2, true, st.4, st.5))
        } else if a == "--insecure"@ {
            cache_args_from(args, i + 1, (st.0, st.1, st.2, st.3, true, st.5))
        } else if !has_prefix(a, "--"@) && !st.5 {
            cache_args_from(args, i + 1, (Some(a), st.1, st.2, st.3, st.4, true))
        } else {
            Err("unrecognized argument `"@ + a + "`"@)
        }
    }
}

/// What `parse_cache_args` gives for the arguments: they must start with
/// "cache"; the timeout defaults to 30 seconds.
pub open spec fn cache_args(args: Seq<Seq<char>>) -> Result<CacheOptionsView, Seq<char>> {
    if args.len() == 0 || args[0] != "cache"@ {
        Err("expected `cache <url>`"@)
    } else {
        cache_args_from(args, 1, (None, None, 30, false, false, false))
    }
}

impl CacheCliOptions {
    pub open spec fn view_parts(&self) -> CacheOptionsView {
        (self.url@, crate::urls::opt_view(self.profile), self.timeout_secs, self.stats, self.insecure)
    }
}

fn unrecognized(a: &String) -> (r: String)
    ensures
        r@ == "unrecognized argument `"@ + a@ + "`"@,
{
    let p = chars_of("unrecognized argument `");
    let m = chars_of(a.as_str());
    let q = chars_of("`");
    let pm = concat_chars(p.as_slice(), m.as_slice());
    let all = concat_chars(pm.as_slice(), q.as_slice());
    string_of(all.as_slice())
}

/// Parses the arguments of the `cache` command.
pub fn parse_cache_args(args: &[String]) -> (r: Result<CacheCliOptions, String>)
    ensures
        match r {
            Ok(o) => cache_args(args_view(args@)) == Ok::<CacheOptionsView, Seq<char>>(o.view_parts()),
            Err(e) => cache_args(args_view(args@)) == Err::<CacheOptionsView, Seq<char>>(e@),
        },
{
    let ghost av = args_view(args@);
    if args.len() == 0 || !str_eq(args[0].as_str(), "cache") {
        return Err(owned("expected `cache <url>`"));
    }
    let mut url: Option<String> = None;
    let mut profile: Option<String> = None;
    let mut timeout_secs: u64 = 30;
    let mut stats = false;
    let mut insecure = false;
    let mut seen_url = false;
    let mut i: usize = 1;
    while i < args.len()
        invariant
            av == args_view(args@),
            1 <= i,
            cache_args(av) == cache_args_from(av, i as int,
                (crate::urls::opt_view(url), crate::urls::opt_view(profile), timeout_secs, stats, insecure, seen_url)),
        decreases args@.len() + 1 - i,
    {
        let a = &args[i];
        let ghost st = (crate::urls::opt_view(url), crate::urls::opt_view(profile), timeout_secs, stats, insecure, seen_url);
        assert(av[i as int] == a@);
        if str_eq(a.as_str(), "--profile") {
            if i + 1 < args.len() {
                assert(av[i + 1] == args@[i + 1]@);
                profile = Some(args[i + 1].clone());
                i = i + 2;
            } else {
                profile = None;
                let ghost st2 = (st.0, None::<Seq<char>>, st.2, st.3, st.4, st.5);
                assert(cache_args_from(av, i + 2, st2) == finish_cache_args(st2));
                i = args.len();
                assert(cache_args_from(av, i as int, st2) == finish_cache_args(st2));
            }
            continue;
        } else if str_eq(a.as_str(), "--timeout") {
            if i + 1 >= args.len() {
                return Err(owned("missing timeout value"));
            }
            assert(av[i + 1] == args@[i + 1]@);
            let v = chars_of(args[i + 1].as_str());
            match parse_u64(v.as_slice()) {
                Some(n) => {
                    timeout_secs = n;
                    i = i + 2;
                    continue;
                },
                None => {
                    return Err(owned("timeout must be integer seconds"));
                },
            }
        } else if str_eq(a.as_str(), "--stats") {
            stats = true;
        } else if str_eq(a.as_str(), "--insecure") {
            insecure = true;
        } else {
            let ac = chars_of(a.as_str());
            if !starts_with_str(ac.as_slice(), "--") && !seen_url {
                url = Some(a.clone());
                seen_url = true;
            } else {
                return Err(unrecognized(a));
            }
        }
        i = i + 1;
    }
    match url {
        Some(u) => Ok(CacheCliOptions { url: u, profile, timeout_secs, stats, insecure }),
        None => Err(owned("missing url")),
    }
}

/// What fetching and caching one address came to.
#[derive(Debug)]
pub struct CacheFetchResult {
    pub metadata: AssetMetadata,
    pub entry_count: usize,
    pub storage_mode: StorageMode,
}

/// The position of the first `c` in `s` at or after `from`, or its length.
pub open spec fn char_pos(s: Seq<char>, c: char, from: int) -> int
    decreases s.len() - from,
{
    if from < 0 || from >= s.len() {
        s.len() as int
    } else if s[from] == c {
        from
    } else {
        char_pos(s, c, from + 1)
    }
}

/// The MIME type of a response: its content type up to the first ';',
/// trimmed, or "application/octet-stream" without one.
pub open spec fn mime_from_content_type(ct: Option<Seq<char>>) -> Seq<char> {
    match ct {
        Some(v) => trim(v.subrange(0, char_pos(v, ';', 0))),
        None => "application/octet-stream"@,
    }
}

/// An optional string slice as plain values.
pub open spec fn str_opt_view(o: Option<&str>) -> Option<Seq<char>> {
    match o {
        Some(v) => Some(v@),
        None => None,
    }
}

/// The MIME type of a response from its content type.
pub fn mime_of(content_type: Option<&str>) -> (r: String)
    ensures
        r@ == mime_from_content_type(str_opt_view(content_type)),
{
    match content_type {
        Some(v) => {
            let c = chars_of(v);
            let mut j: usize = 0;
            while j < c.len() && c[j] != ';'
                invariant
                    j <= c@.len(),
                    char_pos(c@, ';', j as int) == char_pos(c@, ';', 0),
                decreases c@.len() - j,
            {
                j = j + 1;
            }
            let head = slice_chars(c.as_slice(), 0, j);
            let t = trim_chars(head.as_slice());
            string_of(t.as_slice())
        },
        None => owned("application/octet-stream"),
    }
}

/// Records a fetched response in the store, as the `cache` command does:
/// an error status (400 or above) is refused; otherwise the response is
/// recorded under its final address, with its MIME type, body, headers and
/// times, in the session "cli".
pub fn store_fetched(
    store: &mut AssetStore,
    final_url: &str,
    status: u16,
    content_type: Option<&str>,
    headers: Vec<(String, String)>,
    body: &[u8],
    started_at: String,
    finished_at: String,
) -> (r: Result<CacheFetchResult, String>)
    requires
        old(store).spec_entries().len() < u64::MAX,
    ensures
        status >= 400 ==> (r matches Err(e) && e@ == "cache fetch returned status "@ + decimal_digits(status as nat))
            && final(store).spec_entries() == old(store).spec_entries(),
        status < 400 ==> (r matches Ok(res) && {
            &&& exists|cli: String| cli@ == "cli"@ && #[trigger] recorded_as(res.metadata, old(store).spec_config(),
                old(store).spec_profile_id(), old(store).spec_pins(), old(store).spec_entries().len(), final_url@,
                None, None, None, mime_from_content_type(str_opt_view(content_type)),
                Some(body@), headers@, false, false, Some(cli), None, None, Some(started_at), Some(finished_at))
            &&& res.entry_count == final(store).spec_entries().len()
            &&& res.entry_count == old(store).spec_entries().len() + 1
            &&& res.storage_mode == storage_mode_setting(old(store).spec_config().storage_mode@)
            &&& same_asset(final(store).spec_entries().last(), res.metadata)
        }),
{
    if status >= 400 {
        let p = chars_of("cache fetch returned status ");
        let d = decimal_string(status as u64);
        let all = concat_chars(p.as_slice(), d.as_slice());
        return Err(string_of(all.as_slice()));
    }
    let mime = mime_of(content_type);
    let cli = owned("cli");
    let ghost cli_g = cli;
    let metadata = store.record_asset_with_timing(final_url, None, None, None, mime.as_str(), Some(body), headers,
        false, false, Some(cli), None, None, Some(started_at), Some(finished_at));
    assert(cli_g@ == "cli"@);
    let entry_count = store.entries().len();
    let storage_mode = store.storage_mode();
    Ok(CacheFetchResult { metadata, entry_count, storage_mode })
}

} // verus!
