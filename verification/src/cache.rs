//! The asset cache: what to capture of a response, the in-memory index of
//! captured assets, and queries over it.

use vstd::prelude::*;
use crate::text::{
    seq_lt, chars_lt, lemma_seq_lt_irreflexive, lemma_seq_lt_total,
    chars_of, str_eq, owned, has_prefix, has_suffix, contains_seq, chars_contain, chars_end_with,
    starts_with_str, concat_chars, string_of, trim_start, trim_start_chars,
};
use crate::urls::{parse_url, url_parse_result, split_char, split_chars, pieces_view, opt_view};
use crate::config::{CacheConfig, HostCapturePolicy, strings_view};
use crate::assoc::{assoc_get, lemma_assoc_update_first, lemma_assoc_insert_new, lemma_assoc_insert_other};
use crate::cache_gc::{removals_fit, usizes_view, after_removals};

verus! {

/// How much of a response the cache keeps.
#[derive(Debug, Clone, Copy, PartialEq, Eq, Structural)]
pub enum CaptureMode {
    MetadataOnly,
    Selective,
    Archive,
}

impl Default for CaptureMode {
    fn default() -> (r: Self)
        ensures
            r == CaptureMode::MetadataOnly,
    {
        CaptureMode::MetadataOnly
    }
}

/// Where captured bodies are kept.
#[derive(Debug, Clone, Copy, PartialEq, Eq, Structural)]
pub enum StorageMode {
    Memory,
    Disk,
    Archive,
}

impl Default for StorageMode {
    fn default() -> (r: Self)
        ensures
            r == StorageMode::Disk,
    {
        StorageMode::Disk
    }
}

/// The capture mode that a setting names.
#[derive(Debug, Clone, Copy, PartialEq, Eq, Structural)]
pub enum CaptureModeSetting {
    MetadataOnly,
    Selective,
    Archive,
    All,
}

/// The capture mode a setting names: "metadata-only", "archive", "all",
/// and anything else is selective.
pub open spec fn capture_mode_setting(value: Seq<char>) -> CaptureModeSetting {
    if value == "metadata-only"@ {
        CaptureModeSetting::MetadataOnly
    } else if value == "archive"@ {
        CaptureModeSetting::Archive
    } else if value == "all"@ {
        CaptureModeSetting::All
    } else {
        CaptureModeSetting::Selective
    }
}

/// Reads a capture mode setting.
pub fn capture_mode_from_str(value: &str) -> (r: CaptureModeSetting)
    ensures
        r == capture_mode_setting(value@),
{
    if str_eq(value, "metadata-only") {
        CaptureModeSetting::MetadataOnly
    } else if str_eq(value, "archive") {
        CaptureModeSetting::Archive
    } else if str_eq(value, "all") {
        CaptureModeSetting::All
    } else {
        CaptureModeSetting::Selective
    }
}

/// The storage mode a setting names: "memory", "archive", and anything else
/// is disk.
pub open spec fn storage_mode_setting(value: Seq<char>) -> StorageMode {
    if value == "memory"@ {
        StorageMode::Memory
    } else if value == "archive"@ {
        StorageMode::Archive
    } else {
        StorageMode::Disk
    }
}

/// What the cache decided for one response.
#[derive(Debug, Clone)]
pub struct CaptureDecision {
    pub mode: CaptureMode,
    pub capture_body: bool,
    pub truncated: bool,
    pub reason: String,
}

/// A decision as plain values: (mode, capture body, truncated, reason).
pub type DecisionView = (CaptureMode, bool, bool, Seq<char>);

impl CaptureDecision {
    pub open spec fn view_parts(&self) -> DecisionView {
        (self.mode, self.capture_body, self.truncated, self.reason@)
    }
}

/// Whether a glob set built from `patterns` (the patterns that parse as
/// globs; the others are skipped) matches `value`, as `globset` decides;
/// `None` where the set could not be built.
pub uninterp spec fn globset_match(patterns: Seq<Seq<char>>, value: Seq<char>) -> Option<bool>;

/// Builds a `globset::GlobSet` from the patterns that `globset::Glob::new`
/// accepts and asks `GlobSet::is_match` of `value`; `None` where
/// `GlobSetBuilder::build` fails.
#[verifier::external_body]
fn glob_match(patterns: &Vec<String>, value: &str) -> (r: Option<bool>)
    ensures
        r == globset_match(strings_view(patterns@), value@),
{
    let mut builder = globset::GlobSetBuilder::new();
    for pattern in patterns.iter() {
        if let Ok(glob) = globset::Glob::new(pattern) {
            builder.add(glob);
        }
    }
    match builder.build() {
        Ok(set) => Some(set.is_match(value)),
        Err(_) => None,
    }
}

/// Whether a non-empty pattern list matches `value`.
pub open spec fn patterns_match(patterns: Seq<Seq<char>>, value: Seq<char>) -> bool {
    patterns.len() != 0 && globset_match(patterns, value) == Some(true)
}

fn patterns_match_exec(patterns: &Vec<String>, value: &str) -> (r: bool)
    ensures
        r == patterns_match(strings_view(patterns@), value@),
{
    if patterns.len() == 0 {
        return false;
    }
    match glob_match(patterns, value) {
        Some(b) => b,
        None => false,
    }
}

/// The third '/'-separated piece of a URL: its host for `scheme://host/...`.
pub open spec fn third_piece(url: Seq<char>) -> Option<Seq<char>> {
    let pieces = split_char(url, '/');
    if pieces.len() > 2 { Some(pieces[2]) } else { None }
}

fn third_piece_exec(url: &str) -> (r: Option<String>)
    ensures
        opt_view(r) == third_piece(url@),
{
    let c = chars_of(url);
    let pieces = split_chars(c.as_slice(), '/');
    if pieces.len() > 2 {
        assert(pieces_view(pieces@)[2] == pieces@[2]@);
        Some(string_of(pieces[2].as_slice()))
    } else {
        None
    }
}

/// The host whose capture policy applies to a URL: the parsed URL's host,
/// else the third '/'-separated piece.
pub open spec fn policy_host(url: Seq<char>) -> Option<Seq<char>> {
    match url_parse_result(url) {
        Ok(p) => match p.2 {
            Some(h) => Some(h),
            None => third_piece(url),
        },
        Err(_) => third_piece(url),
    }
}

/// Whether a host override keyed `key` covers `host`: the host itself or
/// one of its subdomains.
pub open spec fn override_covers(key: Seq<char>, host: Seq<char>) -> bool {
    host == key || has_suffix(host, seq!['.'] + key)
}

/// The position of the first override in `overrides[from..]` covering `host`.
pub open spec fn first_override(overrides: Seq<(String, HostCapturePolicy)>, host: Seq<char>, from: int) -> Option<int>
    decreases overrides.len() - from,
{
    if from < 0 || from >= overrides.len() {
        None
    } else if override_covers(overrides[from].0@, host) {
        Some(from)
    } else {
        first_override(overrides, host, from + 1)
    }
}

/// The position of the host override that applies to a URL, if any: the
/// first, in key order, that covers the URL's host.
pub open spec fn host_policy_index(cfg: CacheConfig, url: Seq<char>) -> Option<int> {
    match policy_host(url) {
        None => None,
        Some(h) => first_override(cfg.host_overrides@, h, 0),
    }
}

/// The host the allow and deny lists are matched against: the third
/// '/'-separated piece of the URL, or the whole URL.
pub open spec fn list_host(url: Seq<char>) -> Seq<char> {
    match third_piece(url) {
        Some(h) => h,
        None => url,
    }
}

/// Whether one of `needles` occurs in `hay`.
pub open spec fn any_contained(needles: Seq<Seq<char>>, hay: Seq<char>) -> bool {
    exists|i: int| 0 <= i < needles.len() && contains_seq(hay, needles[i])
}

/// Whether the cache may keep bodies from a URL: no deny entry occurs in
/// its host, and the allow list is empty or some entry occurs in it.
pub open spec fn host_allowed(cfg: CacheConfig, url: Seq<char>) -> bool {
    let host = list_host(url);
    !any_contained(strings_view(cfg.host_denylist@), host)
        && (cfg.host_allowlist@.len() == 0 || any_contained(strings_view(cfg.host_allowlist@), host))
}

/// MIME types kept under selective capture when documents are captured.
pub open spec fn document_mime(mime: Seq<char>) -> bool {
    mime == "text/html"@ || mime == "application/json"@ || mime == "text/css"@
        || mime == "application/javascript"@ || mime == "text/javascript"@
}

/// MIME types kept under selective capture when media are captured.
pub open spec fn media_mime(mime: Seq<char>) -> bool {
    has_prefix(mime, "image/"@) || has_prefix(mime, "font/"@) || has_prefix(mime, "audio/"@)
        || has_prefix(mime, "video/"@)
}

/// Whether selective capture keeps bodies of this MIME type.
pub open spec fn selective_keeps(cfg: CacheConfig, mime: Seq<char>) -> bool {
    (cfg.capture_html_json_css_js && document_mime(mime)) || (cfg.capture_media && media_mime(mime))
}

/// Whether the MIME type passes the allow and deny lists: a host policy's
/// deny list, then its allow list where it has one; then the cache's deny
/// list, then its allow list where it has one that builds.
pub open spec fn mime_allowed(cfg: CacheConfig, mime: Seq<char>, policy: Option<HostCapturePolicy>) -> bool {
    if policy matches Some(p) && patterns_match(strings_view(p.mime_denylist@), mime) {
        false
    } else if policy matches Some(p) && p.mime_allowlist@.len() != 0 {
        patterns_match(strings_view(policy->Some_0.mime_allowlist@), mime)
    } else if patterns_match(strings_view(cfg.mime_denylist@), mime) {
        false
    } else if cfg.mime_allowlist@.len() != 0 && globset_match(strings_view(cfg.mime_allowlist@), mime) is Some {
        globset_match(strings_view(cfg.mime_allowlist@), mime) == Some(true)
    } else {
        true
    }
}

/// The override at a position, if any.
pub open spec fn policy_at(cfg: CacheConfig, i: Option<int>) -> Option<HostCapturePolicy> {
    match i {
        Some(k) => Some(cfg.host_overrides@[k].1),
        None => None,
    }
}

/// The capture decision for a response.
///
/// The capture mode is the host policy's, else the cache's; archive replay
/// forces archive capture, and selective capture is off where selective
/// body capture is disabled. A denied host, a host policy that refuses
/// bodies, a missing required authentication and a denied third party
/// each keep metadata only. Otherwise the body is kept where the mode and
/// MIME lists allow it and it is not larger than the entry limit (the host
/// policy's, else the cache's, which also stands in for a zero limit); a
/// larger body is marked truncated.
pub open spec fn capture_decision(
    cfg: CacheConfig,
    url: Seq<char>,
    mime: Seq<char>,
    size_bytes: u64,
    is_third_party: bool,
    authenticated: bool,
) -> DecisionView {
    let policy = policy_at(cfg, host_policy_index(cfg, url));
    let named = match policy {
        Some(p) => match p.capture_mode {
            Some(m) => m@,
            None => cfg.capture_mode@,
        },
        None => cfg.capture_mode@,
    };
    let m0 = capture_mode_setting(named);
    let m1 = if cfg.archive_replay_mode { CaptureModeSetting::Archive } else { m0 };
    let mode = if !cfg.selective_body_capture && m1 == CaptureModeSetting::Selective {
        CaptureModeSetting::MetadataOnly
    } else {
        m1
    };
    let limit0 = match policy {
        Some(p) => match p.max_entry_bytes {
            Some(l) => l,
            None => cfg.max_entry_bytes,
        },
        None => cfg.max_entry_bytes,
    };
    let body_ok = match policy {
        Some(p) => match p.capture_body {
            Some(b) => b,
            None => true,
        },
        None => true,
    };
    if !host_allowed(cfg, url) {
        (CaptureMode::MetadataOnly, false, false, "host-denied"@)
    } else if !body_ok {
        (CaptureMode::MetadataOnly, false, false, "host-policy"@)
    } else if cfg.authenticated_only && !authenticated {
        (CaptureMode::MetadataOnly, false, false, "auth-required"@)
    } else if is_third_party && cfg.third_party_mode@ == "deny"@ {
        (CaptureMode::MetadataOnly, false, false, "third-party-denied"@)
    } else {
        let allow = match mode {
            CaptureModeSetting::MetadataOnly => false,
            CaptureModeSetting::All | CaptureModeSetting::Archive => mime_allowed(cfg, mime, policy),
            CaptureModeSetting::Selective => mime_allowed(cfg, mime, policy) && selective_keeps(cfg, mime),
        };
        let limit = if limit0 == 0 { cfg.max_entry_bytes } else { limit0 };
        let out_mode = match mode {
            CaptureModeSetting::Archive => CaptureMode::Archive,
            CaptureModeSetting::MetadataOnly => CaptureMode::MetadataOnly,
            _ => CaptureMode::Selective,
        };
        if size_bytes > limit {
            (out_mode, false, true, "policy"@)
        } else {
            (out_mode, allow, false, "policy"@)
        }
    }
}

fn any_contained_exec(needles: &Vec<String>, hay: &Vec<char>) -> (r: bool)
    ensures
        r == any_contained(strings_view(needles@), hay@),
{
    let mut i: usize = 0;
    while i < needles.len()
        invariant
            i <= needles@.len(),
            forall|k: int| 0 <= k < i ==> !contains_seq(hay@, strings_view(needles@)[k]),
        decreases needles@.len() - i,
    {
        let n = chars_of(needles[i].as_str());
        if chars_contain(hay.as_slice(), n.as_slice()) {
            assert(strings_view(needles@)[i as int] == n@);
            return true;
        }
        i = i + 1;
    }
    false
}

fn is_document_mime(mime: &str) -> (r: bool)
    ensures
        r == document_mime(mime@),
{
    str_eq(mime, "text/html") || str_eq(mime, "application/json") || str_eq(mime, "text/css")
        || str_eq(mime, "application/javascript") || str_eq(mime, "text/javascript")
}

fn is_media_mime(mime: &str) -> (r: bool)
    ensures
        r == media_mime(mime@),
{
    let m = chars_of(mime);
    starts_with_str(m.as_slice(), "image/") || starts_with_str(m.as_slice(), "font/")
        || starts_with_str(m.as_slice(), "audio/") || starts_with_str(m.as_slice(), "video/")
}

/// The in-memory asset index of one profile: the capture settings, the
/// recorded assets in recording order, and the pinned body hashes.
#[derive(Debug)]
pub struct AssetStore {
    config: CacheConfig,
    profile_id: String,
    entries: Vec<AssetMetadata>,
    pinned: Vec<(String, bool)>,
}

/// The recorded metadata of one asset.
#[derive(Debug, Clone)]
pub struct AssetMetadata {
    pub asset_id: String,
    pub url: String,
    pub final_url: Option<String>,
    pub method: Option<String>,
    pub status_code: Option<u16>,
    pub mime: String,
    pub size_bytes: u64,
    pub hash: Option<String>,
    pub body_key: Option<String>,
    pub created_at: String,
    pub response_headers: Vec<(String, String)>,
    pub request_started_at: Option<String>,
    pub response_finished_at: Option<String>,
    pub duration_ms: Option<u64>,
    pub capture_mode: CaptureMode,
    pub truncated: bool,
    pub is_third_party: bool,
    pub authenticated: bool,
    pub pinned: bool,
    pub storage_mode: StorageMode,
    pub profile_id: String,
    pub session_id: Option<String>,
    pub tab_id: Option<String>,
    pub request_id: Option<String>,
}

/// A filter over recorded assets; every given field must match.
#[derive(Debug, Clone)]
pub struct AssetQuery {
    pub url: Option<String>,
    pub mime: Option<String>,
    pub hash: Option<String>,
    pub session_id: Option<String>,
    pub tab_id: Option<String>,
    pub status_code: Option<u16>,
}

impl Default for AssetQuery {
    fn default() -> (r: Self)
        ensures
            r.url is None && r.mime is None && r.hash is None && r.session_id is None
                && r.tab_id is None && r.status_code is None,
    {
        AssetQuery { url: None, mime: None, hash: None, session_id: None, tab_id: None, status_code: None }
    }
}

/// Whether an asset matches a query: the url and MIME type hold the given
/// text, and the hash, session, tab and status equal the given values.
pub open spec fn query_matches(q: AssetQuery, e: AssetMetadata) -> bool {
    &&& (q.url matches Some(u) ==> contains_seq(e.url@, u@))
    &&& (q.mime matches Some(m) ==> contains_seq(e.mime@, m@))
    &&& (q.hash matches Some(h) ==> opt_view(e.hash) == Some(h@))
    &&& (q.session_id matches Some(s) ==> opt_view(e.session_id) == Some(s@))
    &&& (q.tab_id matches Some(t) ==> opt_view(e.tab_id) == Some(t@))
    &&& (q.status_code matches Some(c) ==> e.status_code == Some(c))
}

/// Whether an optional string equals the given one.
pub(crate) fn opt_eq(o: &Option<String>, s: &String) -> (r: bool)
    ensures
        r == (opt_view(*o) == Some(s@)),
{
    match o {
        Some(x) => str_eq(x.as_str(), s.as_str()),
        None => false,
    }
}

pub(crate) fn text_contains(hay: &String, needle: &String) -> (r: bool)
    ensures
        r == contains_seq(hay@, needle@),
{
    let h = chars_of(hay.as_str());
    let n = chars_of(needle.as_str());
    chars_contain(h.as_slice(), n.as_slice())
}

/// Whether an asset matches a query.
pub fn asset_matches(q: &AssetQuery, e: &AssetMetadata) -> (r: bool)
    ensures
        r == query_matches(*q, *e),
{
    if let Some(u) = &q.url {
        if !text_contains(&e.url, u) {
            return false;
        }
    }
    if let Some(m) = &q.mime {
        if !text_contains(&e.mime, m) {
            return false;
        }
    }
    if let Some(h) = &q.hash {
        if !opt_eq(&e.hash, h) {
            return false;
        }
    }
    if let Some(s) = &q.session_id {
        if !opt_eq(&e.session_id, s) {
            return false;
        }
    }
    if let Some(t) = &q.tab_id {
        if !opt_eq(&e.tab_id, t) {
            return false;
        }
    }
    if let Some(c) = q.status_code {
        match e.status_code {
            Some(x) => {
                if x != c {
                    return false;
                }
            },
            None => {
                return false;
            },
        }
    }
    true
}

/// The assets of `entries` that satisfy `keep`, in order.
pub open spec fn filter_assets(entries: Seq<AssetMetadata>, keep: spec_fn(AssetMetadata) -> bool) -> Seq<AssetMetadata>
    decreases entries.len(),
{
    if entries.len() == 0 {
        Seq::<AssetMetadata>::empty()
    } else {
        let rest = filter_assets(entries.drop_last(), keep);
        if keep(entries.last()) { rest.push(entries.last()) } else { rest }
    }
}

/// Whether an asset belongs to a session.
pub open spec fn in_session(session_id: Seq<char>, e: AssetMetadata) -> bool {
    opt_view(e.session_id) == Some(session_id)
}

/// The first asset whose id or hash is `key`.
pub open spec fn first_with_key(entries: Seq<AssetMetadata>, key: Seq<char>) -> Option<int>
    decreases entries.len(),
{
    if entries.len() == 0 {
        None
    } else if entries[0].asset_id@ == key || opt_view(entries[0].hash) == Some(key) {
        Some(0)
    } else {
        match first_with_key(entries.subrange(1, entries.len() as int), key) {
            Some(i) => Some(i + 1),
            None => None,
        }
    }
}

impl AssetStore {
    /// The recorded assets, in recording order.
    pub closed spec fn spec_entries(&self) -> Seq<AssetMetadata> {
        self.entries@
    }

    /// The capture settings.
    pub closed spec fn spec_config(&self) -> CacheConfig {
        self.config
    }

    /// The pinned body hashes and their flags.
    pub closed spec fn spec_pins(&self) -> Seq<(String, bool)> {
        self.pinned@
    }

    /// The profile the store belongs to.
    pub closed spec fn spec_profile_id(&self) -> Seq<char> {
        self.profile_id@
    }

    /// The capture settings.
    pub fn config(&self) -> (r: &CacheConfig)
        ensures
            *r == self.spec_config(),
    {
        &self.config
    }

    /// The recorded assets, in recording order.
    pub fn entries(&self) -> (r: &Vec<AssetMetadata>)
        ensures
            r@ == self.spec_entries(),
    {
        &self.entries
    }

    /// Where bodies are kept: "memory", "archive", anything else on disk.
    pub fn storage_mode(&self) -> (r: StorageMode)
        ensures
            r == storage_mode_setting(self.spec_config().storage_mode@),
    {
        if str_eq(self.config.storage_mode.as_str(), "memory") {
            StorageMode::Memory
        } else if str_eq(self.config.storage_mode.as_str(), "archive") {
            StorageMode::Archive
        } else {
            StorageMode::Disk
        }
    }

    /// Whether the cache may keep bodies from the URL's host.
    pub fn host_allowed(&self, url: &str) -> (r: bool)
        ensures
            r == host_allowed(self.spec_config(), url@),
    {
        let host = match third_piece_exec(url) {
            Some(h) => chars_of(h.as_str()),
            None => chars_of(url),
        };
        if any_contained_exec(&self.config.host_denylist, &host) {
            return false;
        }
        if self.config.host_allowlist.len() == 0 {
            return true;
        }
        any_contained_exec(&self.config.host_allowlist, &host)
    }

    /// Whether selective capture keeps bodies of this MIME type.
    pub fn should_capture_body(&self, mime: &str) -> (r: bool)
        ensures
            r == selective_keeps(self.spec_config(), mime@),
    {
        if self.config.capture_html_json_css_js && is_document_mime(mime) {
            return true;
        }
        if self.config.capture_media && is_media_mime(mime) {
            return true;
        }
        false
    }

    /// The position of the host override that applies to a URL.
    pub fn host_policy(&self, url: &str) -> (r: Option<usize>)
        ensures
            match r {
                Some(i) => host_policy_index(self.spec_config(), url@) == Some(i as int)
                    && i < self.spec_config().host_overrides@.len(),
                None => host_policy_index(self.spec_config(), url@) is None,
            },
    {
        let host = match parse_url(url) {
            Ok(p) => match p.host {
                Some(h) => h,
                None => match third_piece_exec(url) {
                    Some(h) => h,
                    None => {
                        return None;
                    },
                },
            },
            Err(_) => match third_piece_exec(url) {
                Some(h) => h,
                None => {
                    return None;
                },
            },
        };
        let ghost hv = host@;
        assert(policy_host(url@) == Some(hv));
        let hc = chars_of(host.as_str());
        let overrides = &self.config.host_overrides;
        let mut i: usize = 0;
        while i < overrides.len()
            invariant
                i <= overrides@.len(),
                hc@ == hv,
                first_override(overrides@, hv, 0) == first_override(overrides@, hv, i as int),
                host_policy_index(self.spec_config(), url@) == first_override(overrides@, hv, i as int),
                overrides@ == self.spec_config().host_overrides@,
            decreases overrides@.len() - i,
        {
            let k = chars_of(overrides[i].0.as_str());
            let dot = chars_of(".");
            let dk = concat_chars(dot.as_slice(), k.as_slice());
            assert(dot@ =~= seq!['.']) by {
                reveal_strlit(".");
            }
            let covers = crate::text::chars_eq(hc.as_slice(), k.as_slice()) || chars_end_with(hc.as_slice(), dk.as_slice());
            assert(dk@ == seq!['.'] + k@);
            assert(k@ == overrides@[i as int].0@);
            if covers {
                assert(override_covers(overrides@[i as int].0@, hv));
                return Some(i);
            }
            assert(!override_covers(overrides@[i as int].0@, hv));
            i = i + 1;
        }
        None
    }

    /// Whether the MIME type passes the host policy's and the cache's
    /// allow and deny lists.
    pub fn is_mime_allowed(&self, mime: &str, host_policy: Option<&HostCapturePolicy>) -> (r: bool)
        ensures
            r == mime_allowed(self.spec_config(), mime@, match host_policy { Some(p) => Some(*p), None => None }),
    {
        if let Some(policy) = host_policy {
            if patterns_match_exec(&policy.mime_denylist, mime) {
                return false;
            }
            if policy.mime_allowlist.len() != 0 {
                return patterns_match_exec(&policy.mime_allowlist, mime);
            }
        }
        if patterns_match_exec(&self.config.mime_denylist, mime) {
            return false;
        }
        if self.config.mime_allowlist.len() != 0 {
            if let Some(b) = glob_match(&self.config.mime_allowlist, mime) {
                return b;
            }
        }
        true
    }

    /// Decides what to capture of a response.
    pub fn evaluate_capture(
        &self,
        url: &str,
        mime: &str,
        size_bytes: u64,
        is_third_party: bool,
        authenticated: bool,
    ) -> (r: CaptureDecision)
        ensures
            r.view_parts() == capture_decision(self.spec_config(), url@, mime@, size_bytes, is_third_party, authenticated),
            host_allowed(self.spec_config(), url@)
                && (policy_at(self.spec_config(), host_policy_index(self.spec_config(), url@)) matches Some(p) ==> p.capture_body != Some(false))
                && (self.spec_config().authenticated_only ==> authenticated)
                && is_third_party && self.spec_config().third_party_mode@ == "deny"@
                ==> r.mode == CaptureMode::MetadataOnly && !r.capture_body && !r.truncated && r.reason@ == "third-party-denied"@,
    {
        proof {
            if host_allowed(self.spec_config(), url@)
                && (policy_at(self.spec_config(), host_policy_index(self.spec_config(), url@)) matches Some(p) ==> p.capture_body != Some(false))
                && (self.spec_config().authenticated_only ==> authenticated)
                && is_third_party && self.spec_config().third_party_mode@ == "deny"@ {
                law_third_party_denied(self.spec_config(), url@, mime@, size_bytes, authenticated);
            }
        }
        let ghost cfg = self.spec_config();
        let pi = self.host_policy(url);
        let policy: Option<&HostCapturePolicy> = match pi {
            Some(i) => Some(&self.config.host_overrides[i].1),
            None => None,
        };
        let ghost pv = policy_at(cfg, host_policy_index(cfg, url@));
        assert(pv == match policy { Some(p) => Some(*p), None => None::<HostCapturePolicy> });
        let named: &String = match policy {
            Some(p) => match &p.capture_mode {
                Some(m) => m,
                None => &self.config.capture_mode,
            },
            None => &self.config.capture_mode,
        };
        let m0 = capture_mode_from_str(named.as_str());
        let m1 = if self.config.archive_replay_mode { CaptureModeSetting::Archive } else { m0 };
        let mode = if !self.config.selective_body_capture && m1 == CaptureModeSetting::Selective {
            CaptureModeSetting::MetadataOnly
        } else {
            m1
        };
        let limit0 = match policy {
            Some(p) => match p.max_entry_bytes {
                Some(l) => l,
                None => self.config.max_entry_bytes,
            },
            None => self.config.max_entry_bytes,
        };
        let body_ok = match policy {
            Some(p) => match p.capture_body {
                Some(b) => b,
                None => true,
            },
            None => true,
        };
        if !self.host_allowed(url) {
            return CaptureDecision { mode: CaptureMode::MetadataOnly, capture_body: false, truncated: false, reason: owned("host-denied") };
        }
        if !body_ok {
            return CaptureDecision { mode: CaptureMode::MetadataOnly, capture_body: false, truncated: false, reason: owned("host-policy") };
        }
        if self.config.authenticated_only && !authenticated {
            return CaptureDecision { mode: CaptureMode::MetadataOnly, capture_body: false, truncated: false, reason: owned("auth-required") };
        }
        if is_third_party && str_eq(self.config.third_party_mode.as_str(), "deny") {
            return CaptureDecision { mode: CaptureMode::MetadataOnly, capture_body: false, truncated: false, reason: owned("third-party-denied") };
        }
        let allow = match mode {
            CaptureModeSetting::MetadataOnly => false,
            CaptureModeSetting::All | CaptureModeSetting::Archive => self.is_mime_allowed(mime, policy),
            CaptureModeSetting::Selective => self.is_mime_allowed(mime, policy) && self.should_capture_body(mime),
        };
        let limit = if limit0 == 0 { self.config.max_entry_bytes } else { limit0 };
        let out_mode = match mode {
            CaptureModeSetting::Archive => CaptureMode::Archive,
            CaptureModeSetting::MetadataOnly => CaptureMode::MetadataOnly,
            _ => CaptureMode::Selective,
        };
        if size_bytes > limit {
            CaptureDecision { mode: out_mode, capture_body: false, truncated: true, reason: owned("policy") }
        } else {
            CaptureDecision { mode: out_mode, capture_body: allow, truncated: false, reason: owned("policy") }
        }
    }
}

/// Whether two assets hold the same metadata.
pub open spec fn same_asset(a: AssetMetadata, b: AssetMetadata) -> bool {
    same_but_pin(a, b) && a.pinned == b.pinned
}

/// Whether two assets hold the same metadata but for the pin flag.
pub open spec fn same_but_pin(a: AssetMetadata, b: AssetMetadata) -> bool {
    &&& a.asset_id == b.asset_id
    &&& a.url == b.url
    &&& a.final_url == b.final_url
    &&& a.method == b.method
    &&& a.status_code == b.status_code
    &&& a.mime == b.mime
    &&& a.size_bytes == b.size_bytes
    &&& a.hash == b.hash
    &&& a.body_key == b.body_key
    &&& a.created_at == b.created_at
    &&& a.response_headers@ == b.response_headers@
    &&& a.request_started_at == b.request_started_at
    &&& a.response_finished_at == b.response_finished_at
    &&& a.duration_ms == b.duration_ms
    &&& a.capture_mode == b.capture_mode
    &&& a.truncated == b.truncated
    &&& a.is_third_party == b.is_third_party
    &&& a.authenticated == b.authenticated
    &&& a.storage_mode == b.storage_mode
    &&& a.profile_id == b.profile_id
    &&& a.session_id == b.session_id
    &&& a.tab_id == b.tab_id
    &&& a.request_id == b.request_id
}

pub(crate) fn clone_opt(o: &Option<String>) -> (r: Option<String>)
    ensures
        r == *o,
{
    match o {
        Some(s) => Some(s.clone()),
        None => None,
    }
}

fn clone_headers(h: &Vec<(String, String)>) -> (r: Vec<(String, String)>)
    ensures
        r@ == h@,
{
    let mut r: Vec<(String, String)> = Vec::new();
    let mut i: usize = 0;
    while i < h.len()
        invariant
            i <= h@.len(),
            r@ == h@.subrange(0, i as int),
        decreases h@.len() - i,
    {
        let k = h[i].0.clone();
        let v = h[i].1.clone();
        r.push((k, v));
        i = i + 1;
        assert(r@ =~= h@.subrange(0, i as int));
    }
    assert(h@.subrange(0, h@.len() as int) =~= h@);
    r
}

/// A copy of an asset's metadata.
pub fn clone_asset(a: &AssetMetadata) -> (r: AssetMetadata)
    ensures
        same_asset(r, *a),
{
    AssetMetadata {
        asset_id: a.asset_id.clone(),
        url: a.url.clone(),
        final_url: clone_opt(&a.final_url),
        method: clone_opt(&a.method),
        status_code: a.status_code,
        mime: a.mime.clone(),
        size_bytes: a.size_bytes,
        hash: clone_opt(&a.hash),
        body_key: clone_opt(&a.body_key),
        created_at: a.created_at.clone(),
        response_headers: clone_headers(&a.response_headers),
        request_started_at: clone_opt(&a.request_started_at),
        response_finished_at: clone_opt(&a.response_finished_at),
        duration_ms: a.duration_ms,
        capture_mode: a.capture_mode,
        truncated: a.truncated,
        is_third_party: a.is_third_party,
        authenticated: a.authenticated,
        pinned: a.pinned,
        storage_mode: a.storage_mode,
        profile_id: a.profile_id.clone(),
        session_id: clone_opt(&a.session_id),
        tab_id: clone_opt(&a.tab_id),
        request_id: clone_opt(&a.request_id),
    }
}

/// The pin flag of a body hash: its first entry, else unpinned.
pub open spec fn pin_flag(pins: Seq<(String, bool)>, hash: Seq<char>) -> bool
    decreases pins.len(),
{
    if pins.len() == 0 {
        false
    } else if pins[0].0@ == hash {
        pins[0].1
    } else {
        pin_flag(pins.subrange(1, pins.len() as int), hash)
    }
}

fn pin_flag_exec(pins: &Vec<(String, bool)>, hash: &String) -> (r: bool)
    ensures
        r == pin_flag(pins@, hash@),
{
    let mut i: usize = 0;
    assert(pins@.subrange(0, pins@.len() as int) =~= pins@);
    while i < pins.len()
        invariant
            i <= pins@.len(),
            pin_flag(pins@, hash@) == pin_flag(pins@.subrange(i as int, pins@.len() as int), hash@),
        decreases pins@.len() - i,
    {
        let ghost rest = pins@.subrange(i as int, pins@.len() as int);
        assert(rest.subrange(1, rest.len() as int) =~= pins@.subrange(i + 1, pins@.len() as int));
        if str_eq(pins[i].0.as_str(), hash.as_str()) {
            return pins[i].1;
        }
        i = i + 1;
    }
    false
}

/// The pin flag an asset gets from the pins: that of its hash, where it has
/// one; otherwise the flag it carries.
pub open spec fn pin_of(e: AssetMetadata, pins: Seq<(String, bool)>) -> bool {
    match e.hash {
        Some(h) => pin_flag(pins, h@),
        None => e.pinned,
    }
}

/// The assets with their pin flags taken from the pins.
fn apply_pins(entries: &Vec<AssetMetadata>, pins: &Vec<(String, bool)>) -> (r: Vec<AssetMetadata>)
    ensures
        r@.len() == entries@.len(),
        forall|i: int| 0 <= i < r@.len() ==> same_but_pin(#[trigger] r@[i], entries@[i])
            && r@[i].pinned == pin_of(entries@[i], pins@),
{
    let mut r: Vec<AssetMetadata> = Vec::new();
    let mut i: usize = 0;
    while i < entries.len()
        invariant
            i <= entries@.len(),
            r@.len() == i,
            forall|k: int| 0 <= k < i ==> same_but_pin(#[trigger] r@[k], entries@[k])
                && r@[k].pinned == pin_of(entries@[k], pins@),
        decreases entries@.len() - i,
    {
        let mut e = clone_asset(&entries[i]);
        let flag = match &e.hash {
            Some(h) => Some(pin_flag_exec(pins, h)),
            None => None,
        };
        if let Some(f) = flag {
            e.pinned = f;
        }
        r.push(e);
        i = i + 1;
    }
    r
}

/// Whether some pin entry has hash `h`.
pub open spec fn pin_present(pins: Seq<(String, bool)>, h: Seq<char>) -> bool {
    exists|k: int| 0 <= k < pins.len() && pins[k].0@ == h
}

/// The pins whose hash is not `hash`, in order.
pub open spec fn filter_pins(pins: Seq<(String, bool)>, hash: Seq<char>) -> Seq<(String, bool)>
    decreases pins.len(),
{
    if pins.len() == 0 {
        Seq::<(String, bool)>::empty()
    } else {
        let rest = filter_pins(pins.subrange(1, pins.len() as int), hash);
        if pins[0].0@ != hash { seq![pins[0]] + rest } else { rest }
    }
}

proof fn lemma_filter_pins(pins: Seq<(String, bool)>, hash: Seq<char>, h: Seq<char>)
    ensures
        h != hash ==> pin_flag(filter_pins(pins, hash), h) == pin_flag(pins, h),
        pin_flag(filter_pins(pins, hash), hash) == false,
        pin_present(filter_pins(pins, hash), h) == (h != hash && pin_present(pins, h)),
    decreases pins.len(),
{
    if pins.len() > 0 {
        let t = pins.subrange(1, pins.len() as int);
        lemma_filter_pins(t, hash, h);
        let rest = filter_pins(t, hash);
        let f = filter_pins(pins, hash);
        if pins[0].0@ != hash {
            assert(f.subrange(1, f.len() as int) =~= rest);
            assert(f[0] == pins[0]);
            if pin_present(f, h) {
                let k = choose|k: int| 0 <= k < f.len() && f[k].0@ == h;
                if k > 0 { assert(rest[k - 1] == f[k]); }
            }
            if pin_present(rest, h) {
                let k = choose|k: int| 0 <= k < rest.len() && rest[k].0@ == h;
                assert(f[k + 1] == rest[k]);
            }
        }
        if pin_present(pins, h) {
            let k = choose|k: int| 0 <= k < pins.len() && pins[k].0@ == h;
            if k > 0 { assert(t[k - 1] == pins[k]); }
        }
        if pin_present(t, h) {
            let k = choose|k: int| 0 <= k < t.len() && t[k].0@ == h;
            assert(pins[k + 1] == t[k]);
        }
    }
}

/// The pins without any entry for `hash`.
fn pins_without(pins: &Vec<(String, bool)>, hash: &str) -> (r: Vec<(String, bool)>)
    ensures
        r@ == filter_pins(pins@, hash@),
{
    let mut r: Vec<(String, bool)> = Vec::new();
    let mut i: usize = pins.len();
    assert(pins@.subrange(i as int, pins@.len() as int) =~= Seq::<(String, bool)>::empty());
    while i > 0
        invariant
            i <= pins@.len(),
            r@ == filter_pins(pins@.subrange(i as int, pins@.len() as int), hash@),
        decreases i,
    {
        let k = i - 1;
        let ghost suf = pins@.subrange(k as int, pins@.len() as int);
        assert(suf.subrange(1, suf.len() as int) =~= pins@.subrange(i as int, pins@.len() as int));
        assert(suf[0] == pins@[k as int]);
        if !str_eq(pins[k].0.as_str(), hash) {
            let name = pins[k].0.clone();
            let ghost before = r@;
            r.insert(0, (name, pins[k].1));
            assert(r@ =~= seq![pins@[k as int]] + before);
        }
        i = k;
    }
    assert(pins@.subrange(0, pins@.len() as int) =~= pins@);
    r
}

/// The pins with `hash` set to `flag`, as a map insert does.
fn pins_with(pins: &Vec<(String, bool)>, hash: &str, flag: bool) -> (r: Vec<(String, bool)>)
    ensures
        forall|h: Seq<char>| #[trigger] pin_flag(r@, h) == if h == hash@ { flag } else { pin_flag(pins@, h) },
        forall|h: Seq<char>| #[trigger] pin_present(r@, h) == (h == hash@ || pin_present(pins@, h)),
{
    let mut r = pins_without(pins, hash);
    let ghost f = r@;
    r.insert(0, (owned(hash), flag));
    proof {
        assert(r@.subrange(1, r@.len() as int) =~= f);
        assert forall|h: Seq<char>| #[trigger] pin_flag(r@, h) == if h == hash@ { flag } else { pin_flag(pins@, h) } by {
            lemma_filter_pins(pins@, hash@, h);
        }
        assert forall|h: Seq<char>| #[trigger] pin_present(r@, h) == (h == hash@ || pin_present(pins@, h)) by {
            lemma_filter_pins(pins@, hash@, h);
            if pin_present(r@, h) && h != hash@ {
                let k = choose|k: int| 0 <= k < r@.len() && r@[k].0@ == h;
                assert(k > 0);
                assert(f[k - 1] == r@[k]);
            }
            if pin_present(f, h) {
                let k = choose|k: int| 0 <= k < f.len() && f[k].0@ == h;
                assert(r@[k + 1] == f[k]);
            }
            if h == hash@ {
                assert(r@[0].0@ == h);
            }
        }
    }
    r
}

/// The assets with the pin flag of those whose hash is `hash` set to `flag`.
fn set_pin_where(entries: &Vec<AssetMetadata>, hash: &str, flag: bool) -> (r: Vec<AssetMetadata>)
    ensures
        r@.len() == entries@.len(),
        forall|i: int| 0 <= i < r@.len() ==> same_but_pin(#[trigger] r@[i], entries@[i])
            && r@[i].pinned == if opt_view(entries@[i].hash) == Some(hash@) { flag } else { entries@[i].pinned },
{
    let mut r: Vec<AssetMetadata> = Vec::new();
    let mut i: usize = 0;
    while i < entries.len()
        invariant
            i <= entries@.len(),
            r@.len() == i,
            forall|k: int| 0 <= k < i ==> same_but_pin(#[trigger] r@[k], entries@[k])
                && r@[k].pinned == if opt_view(entries@[k].hash) == Some(hash@) { flag } else { entries@[k].pinned },
        decreases entries@.len() - i,
    {
        let mut e = clone_asset(&entries[i]);
        let hit = match &e.hash {
            Some(h) => str_eq(h.as_str(), hash),
            None => false,
        };
        if hit {
            e.pinned = flag;
        }
        r.push(e);
        i = i + 1;
    }
    r
}

impl AssetStore {
    /// A store over recorded assets and pins; each asset with a hash takes
    /// its pin flag from the pins.
    pub fn new(config: CacheConfig, profile_id: String, entries: Vec<AssetMetadata>, pinned: Vec<(String, bool)>) -> (r: Self)
        ensures
            r.spec_config() == config,
            r.spec_profile_id() == profile_id@,
            r.spec_pins() == pinned@,
            r.spec_entries().len() == entries@.len(),
            forall|i: int| 0 <= i < entries@.len() ==> same_but_pin(#[trigger] r.spec_entries()[i], entries@[i])
                && r.spec_entries()[i].pinned == pin_of(entries@[i], pinned@),
    {
        let applied = apply_pins(&entries, &pinned);
        AssetStore { config, profile_id, entries: applied, pinned }
    }

    /// The first asset whose id or hash is `key`.
    pub fn find_by_id_or_hash(&self, key: &str) -> (r: Option<&AssetMetadata>)
        ensures
            match r {
                Some(e) => first_with_key(self.spec_entries(), key@) matches Some(i) && *e == self.spec_entries()[i],
                None => first_with_key(self.spec_entries(), key@) is None,
            },
    {
        let mut i: usize = 0;
        assert(self.entries@.subrange(0, self.entries@.len() as int) =~= self.entries@);
        while i < self.entries.len()
            invariant
                i <= self.entries@.len(),
                forall|j: int| 0 <= j < i ==> !(self.entries@[j].asset_id@ == key@ || opt_view(self.entries@[j].hash) == Some(key@)),
            decreases self.entries@.len() - i,
        {
            let e = &self.entries[i];
            let hit = str_eq(e.asset_id.as_str(), key) || match &e.hash {
                Some(h) => str_eq(h.as_str(), key),
                None => false,
            };
            if hit {
                proof {
                    lemma_first_with_key(self.entries@, key@, i as int);
                }
                return Some(e);
            }
            i = i + 1;
        }
        proof {
            lemma_first_with_key_none(self.entries@, key@);
        }
        None
    }

    /// The assets that match a query, in recording order.
    pub fn query(&self, query: &AssetQuery) -> (r: Vec<AssetMetadata>)
        ensures
            r@.len() == filter_assets(self.spec_entries(), |e: AssetMetadata| query_matches(*query, e)).len(),
            forall|i: int| 0 <= i < r@.len() ==> same_asset(#[trigger] r@[i],
                filter_assets(self.spec_entries(), |e: AssetMetadata| query_matches(*query, e))[i]),
            forall|i: int| 0 <= i < r@.len() ==> (query.status_code matches Some(c) ==> (#[trigger] r@[i]).status_code == Some(c)),
    {
        let ghost keep = |e: AssetMetadata| query_matches(*query, e);
        let mut r: Vec<AssetMetadata> = Vec::new();
        let mut i: usize = 0;
        assert(self.entries@.subrange(0, 0) =~= Seq::<AssetMetadata>::empty());
        while i < self.entries.len()
            invariant
                i <= self.entries@.len(),
                keep == |e: AssetMetadata| query_matches(*query, e),
                r@.len() == filter_assets(self.entries@.subrange(0, i as int), keep).len(),
                forall|k: int| 0 <= k < r@.len() ==> same_asset(#[trigger] r@[k],
                    filter_assets(self.entries@.subrange(0, i as int), keep)[k]),
            decreases self.entries@.len() - i,
        {
            let ghost pre = self.entries@.subrange(0, i + 1);
            assert(pre.drop_last() =~= self.entries@.subrange(0, i as int));
            if asset_matches(query, &self.entries[i]) {
                let e = clone_asset(&self.entries[i]);
                r.push(e);
            }
            i = i + 1;
        }
        assert(self.entries@.subrange(0, self.entries@.len() as int) =~= self.entries@);
        proof {
            law_query_results_match(self.spec_entries(), *query);
            assert(query_results(self.spec_entries(), *query) == filter_assets(self.spec_entries(), keep));
            assert forall|k: int| 0 <= k < r@.len() implies (query.status_code matches Some(c) ==> (#[trigger] r@[k]).status_code == Some(c)) by {
                assert(same_asset(r@[k], query_results(self.spec_entries(), *query)[k]));
            }
        }
        r
    }

    /// The assets recorded in a session, in recording order.
    pub fn replay_session(&self, session_id: &str) -> (r: Vec<AssetMetadata>)
        ensures
            r@.len() == filter_assets(self.spec_entries(), |e: AssetMetadata| in_session(session_id@, e)).len(),
            forall|i: int| 0 <= i < r@.len() ==> same_asset(#[trigger] r@[i],
                filter_assets(self.spec_entries(), |e: AssetMetadata| in_session(session_id@, e))[i]),
    {
        let ghost keep = |e: AssetMetadata| in_session(session_id@, e);
        let mut r: Vec<AssetMetadata> = Vec::new();
        let mut i: usize = 0;
        assert(self.entries@.subrange(0, 0) =~= Seq::<AssetMetadata>::empty());
        while i < self.entries.len()
            invariant
                i <= self.entries@.len(),
                keep == |e: AssetMetadata| in_session(session_id@, e),
                r@.len() == filter_assets(self.entries@.subrange(0, i as int), keep).len(),
                forall|k: int| 0 <= k < r@.len() ==> same_asset(#[trigger] r@[k],
                    filter_assets(self.entries@.subrange(0, i as int), keep)[k]),
            decreases self.entries@.len() - i,
        {
            let ghost pre = self.entries@.subrange(0, i + 1);
            assert(pre.drop_last() =~= self.entries@.subrange(0, i as int));
            let hit = match &self.entries[i].session_id {
                Some(s) => str_eq(s.as_str(), session_id),
                None => false,
            };
            if hit {
                let e = clone_asset(&self.entries[i]);
                r.push(e);
            }
            i = i + 1;
        }
        assert(self.entries@.subrange(0, self.entries@.len() as int) =~= self.entries@);
        r
    }

    /// Pins a body hash: the hash's pin flag becomes set, and so does the
    /// flag of every asset with that hash.
    pub fn pin_asset(&mut self, hash: &str)
        ensures
            forall|h: Seq<char>| #[trigger] pin_flag(final(self).spec_pins(), h)
                == if h == hash@ { true } else { pin_flag(old(self).spec_pins(), h) },
            forall|h: Seq<char>| #[trigger] pin_present(final(self).spec_pins(), h) == (h == hash@ || pin_present(old(self).spec_pins(), h)),
            final(self).spec_config() == old(self).spec_config(),
            final(self).spec_profile_id() == old(self).spec_profile_id(),
            final(self).spec_entries().len() == old(self).spec_entries().len(),
            forall|i: int| 0 <= i < old(self).spec_entries().len() ==> same_but_pin(#[trigger] final(self).spec_entries()[i], old(self).spec_entries()[i])
                && final(self).spec_entries()[i].pinned == if opt_view(old(self).spec_entries()[i].hash) == Some(hash@) { true } else { old(self).spec_entries()[i].pinned },
    {
        let pins = pins_with(&self.pinned, hash, true);
        let entries = set_pin_where(&self.entries, hash, true);
        self.pinned = pins;
        self.entries = entries;
    }

    /// Unpins a body hash: the hash leaves the pins, and every asset with
    /// that hash is unpinned.
    pub fn unpin_asset(&mut self, hash: &str)
        ensures
            forall|h: Seq<char>| #[trigger] pin_flag(final(self).spec_pins(), h)
                == if h == hash@ { false } else { pin_flag(old(self).spec_pins(), h) },
            forall|h: Seq<char>| #[trigger] pin_present(final(self).spec_pins(), h) == (h != hash@ && pin_present(old(self).spec_pins(), h)),
            final(self).spec_config() == old(self).spec_config(),
            final(self).spec_profile_id() == old(self).spec_profile_id(),
            final(self).spec_entries().len() == old(self).spec_entries().len(),
            forall|i: int| 0 <= i < old(self).spec_entries().len() ==> same_but_pin(#[trigger] final(self).spec_entries()[i], old(self).spec_entries()[i])
                && final(self).spec_entries()[i].pinned == if opt_view(old(self).spec_entries()[i].hash) == Some(hash@) { false } else { old(self).spec_entries()[i].pinned },
    {
        let pins = pins_without(&self.pinned, hash);
        proof {
            assert forall|h: Seq<char>| #[trigger] pin_flag(pins@, h) == if h == hash@ { false } else { pin_flag(self.pinned@, h) } by {
                lemma_filter_pins(self.pinned@, hash@, h);
            }
            assert forall|h: Seq<char>| #[trigger] pin_present(pins@, h) == (h != hash@ && pin_present(self.pinned@, h)) by {
                lemma_filter_pins(self.pinned@, hash@, h);
            }
        }
        let entries = set_pin_where(&self.entries, hash, false);
        self.pinned = pins;
        self.entries = entries;
    }

    /// The pins, for saving.
    pub fn pins(&self) -> (r: &Vec<(String, bool)>)
        ensures
            r@ == self.spec_pins(),
    {
        &self.pinned
    }
}

proof fn lemma_first_with_key(entries: Seq<AssetMetadata>, key: Seq<char>, i: int)
    requires
        0 <= i < entries.len(),
        entries[i].asset_id@ == key || opt_view(entries[i].hash) == Some(key),
        forall|j: int| 0 <= j < i ==> !(entries[j].asset_id@ == key || opt_view(entries[j].hash) == Some(key)),
    ensures
        first_with_key(entries, key) == Some(i),
    decreases i,
{
    if i > 0 {
        let t = entries.subrange(1, entries.len() as int);
        assert forall|j: int| 0 <= j < i - 1 implies !(t[j].asset_id@ == key || opt_view(t[j].hash) == Some(key)) by {
            assert(t[j] == entries[j + 1]);
        }
        lemma_first_with_key(t, key, i - 1);
    }
}

proof fn lemma_first_with_key_none(entries: Seq<AssetMetadata>, key: Seq<char>)
    requires
        forall|j: int| 0 <= j < entries.len() ==> !(entries[j].asset_id@ == key || opt_view(entries[j].hash) == Some(key)),
    ensures
        first_with_key(entries, key) is None,
    decreases entries.len(),
{
    if entries.len() > 0 {
        let t = entries.subrange(1, entries.len() as int);
        assert forall|j: int| 0 <= j < t.len() implies !(t[j].asset_id@ == key || opt_view(t[j].hash) == Some(key)) by {
            assert(t[j] == entries[j + 1]);
        }
        lemma_first_with_key_none(t, key);
    }
}

/// What `str::to_lowercase` gives for `s`.
pub uninterp spec fn lowercase_of(s: Seq<char>) -> Seq<char>;

/// Lowercases text with `str::to_lowercase`.
#[verifier::external_body]
pub(crate) fn to_lowercase(s: &str) -> (r: String)
    ensures
        r@ == lowercase_of(s@),
{
    s.to_lowercase()
}

/// The view of a list of string pairs.
pub open spec fn pairs_view(v: Seq<(String, String)>) -> Seq<(Seq<char>, Seq<char>)> {
    Seq::new(v.len(), |i: int| (v[i].0@, v[i].1@))
}

/// Keys strictly ascending.
pub open spec fn keys_ascending(v: Seq<(String, String)>) -> bool {
    forall|i: int| 0 <= i < v.len() - 1 ==> seq_lt(#[trigger] v[i].0@, v[i + 1].0@)
}

/// The value of the last header whose lowercased name is `k`.
pub open spec fn last_header(h: Seq<(String, String)>, k: Seq<char>) -> Option<Seq<char>>
    decreases h.len(),
{
    if h.len() == 0 {
        None
    } else if lowercase_of(h.last().0@) == k {
        Some(h.last().1@)
    } else {
        last_header(h.drop_last(), k)
    }
}

/// Sets `k` to `v` in a list with ascending keys, keeping it ascending.
#[verifier::spinoff_prover]
#[verifier::rlimit(30)]
fn sorted_insert(r: &mut Vec<(String, String)>, k: String, v: String)
    requires
        keys_ascending(old(r)@),
    ensures
        keys_ascending(final(r)@),
        forall|k2: Seq<char>| #[trigger] assoc_get(pairs_view(final(r)@), k2)
            == if k2 == k@ { Some(v@) } else { assoc_get(pairs_view(old(r)@), k2) },
{
    let kc = chars_of(k.as_str());
    let mut j: usize = 0;
    loop
        invariant
            j <= r@.len(),
            kc@ == k@,
            forall|i: int| 0 <= i < j ==> seq_lt(#[trigger] r@[i].0@, k@),
        ensures
            j <= r@.len(),
            forall|i: int| 0 <= i < j ==> seq_lt(#[trigger] r@[i].0@, k@),
            j < r@.len() ==> !seq_lt(r@[j as int].0@, k@),
        decreases r@.len() - j,
    {
        if j >= r.len() {
            break;
        }
        let rc = chars_of(r[j].0.as_str());
        if !chars_lt(rc.as_slice(), kc.as_slice()) {
            break;
        }
        j = j + 1;
    }
    let ghost pv = pairs_view(r@);
    let ghost old_r = r@;
    proof {
        assert forall|i: int| 0 <= i < j implies pv[i].0 != k@ by {
            if pv[i].0 == k@ {
                lemma_seq_lt_irreflexive(k@);
            }
        }
    }
    let ghost kv = k@;
    let ghost vv = v@;
    let same = j < r.len() && str_eq(r[j].0.as_str(), k.as_str());
    if same {
        r.set(j, (k, v));
        proof {
            assert(pairs_view(r@) =~= pv.update(j as int, (kv, vv)));
            assert forall|k2: Seq<char>| #[trigger] assoc_get(pairs_view(r@), k2)
                == if k2 == kv { Some(vv) } else { assoc_get(pv, k2) } by {
                lemma_assoc_update_first(pv, j as int, kv, vv, k2);
            }
            assert forall|i: int| 0 <= i < r@.len() - 1 implies seq_lt(#[trigger] r@[i].0@, r@[i + 1].0@) by {
                assert(old_r[i].0@ == r@[i].0@);
                assert(old_r[i + 1].0@ == r@[i + 1].0@);
            }
        }
    } else {
        r.insert(j, (k, v));
        proof {
            assert(pairs_view(r@) =~= pv.insert(j as int, (kv, vv)));
            assert forall|k2: Seq<char>| #[trigger] assoc_get(pairs_view(r@), k2)
                == if k2 == kv { Some(vv) } else { assoc_get(pv, k2) } by {
                if k2 == kv {
                    lemma_assoc_insert_new(pv, j as int, (kv, vv));
                } else {
                    lemma_assoc_insert_other(pv, j as int, (kv, vv), k2);
                }
            }
            if j < old_r.len() {
                lemma_seq_lt_total(old_r[j as int].0@, kv);
            }
            assert forall|i: int| 0 <= i < r@.len() - 1 implies seq_lt(#[trigger] r@[i].0@, r@[i + 1].0@) by {
                if i < j - 1 {
                    assert(r@[i] == old_r[i] && r@[i + 1] == old_r[i + 1]);
                } else if i == j - 1 {
                    assert(r@[i] == old_r[i]);
                } else if i == j {
                    assert(r@[i + 1] == old_r[i]);
                } else {
                    assert(r@[i] == old_r[i - 1] && r@[i + 1] == old_r[i]);
                }
            }
        }
    }
}

/// Response headers with lowercased names, in ascending name order; where
/// names coincide once lowercased, the last header's value is kept.
pub fn normalize_headers(headers: &Vec<(String, String)>) -> (r: Vec<(String, String)>)
    ensures
        keys_ascending(r@),
        forall|k: Seq<char>| #[trigger] assoc_get(pairs_view(r@), k) == last_header(headers@, k),
{
    let mut r: Vec<(String, String)> = Vec::new();
    let mut i: usize = 0;
    assert(headers@.subrange(0, 0) =~= Seq::<(String, String)>::empty());
    proof {
        assert forall|k: Seq<char>| #[trigger] assoc_get(pairs_view(r@), k) == last_header(headers@.subrange(0, 0), k) by {
            assert(pairs_view(r@).len() == 0);
        }
    }
    while i < headers.len()
        invariant
            i <= headers@.len(),
            keys_ascending(r@),
            forall|k: Seq<char>| #[trigger] assoc_get(pairs_view(r@), k) == last_header(headers@.subrange(0, i as int), k),
        decreases headers@.len() - i,
    {
        let ghost pre = headers@.subrange(0, i + 1);
        assert(pre.drop_last() =~= headers@.subrange(0, i as int));
        assert(pre.last() == headers@[i as int]);
        let key = to_lowercase(headers[i].0.as_str());
        let value = headers[i].1.clone();
        sorted_insert(&mut r, key, value);
        i = i + 1;
    }
    assert(headers@.subrange(0, headers@.len() as int) =~= headers@);
    r
}

/// The SHA-256 digest of `bytes`, as `sha2::Sha256::digest` computes it.
pub uninterp spec fn sha256_of(bytes: Seq<u8>) -> Seq<u8>;

/// Computes the SHA-256 digest with `sha2::Sha256::digest`.
#[verifier::external_body]
fn sha256_digest(bytes: &[u8]) -> (r: Vec<u8>)
    ensures
        r@ == sha256_of(bytes@),
{
    <sha2::Sha256 as sha2::Digest>::digest(bytes).to_vec()
}

/// The whole milliseconds from `start` to `end`, two RFC 3339 timestamps,
/// as `chrono` computes them (`DateTime::parse_from_rfc3339`,
/// `signed_duration_since`, `TimeDelta::to_std`, `Duration::as_millis`);
/// none where either does not parse or `end` is before `start`.
pub uninterp spec fn rfc3339_duration_ms(start: Seq<char>, end: Seq<char>) -> Option<u64>;

/// Measures the time between two RFC 3339 timestamps with `chrono`.
#[verifier::external_body]
fn duration_between(start: &str, end: &str) -> (r: Option<u64>)
    ensures
        r == rfc3339_duration_ms(start@, end@),
{
    let s = chrono::DateTime::parse_from_rfc3339(start).ok()?;
    let e = chrono::DateTime::parse_from_rfc3339(end).ok()?;
    let d = e.signed_duration_since(s).to_std().ok()?;
    Some(d.as_millis() as u64)
}

/// The current time as RFC 3339 text, from `chrono::Utc::now`. It depends
/// on the clock, so nothing is claimed of it.
#[verifier::external_body]
fn now_rfc3339() -> (r: String) {
    chrono::Utc::now().to_rfc3339()
}

/// The id that the next recorded asset gets: "asset-" and one more than
/// the number of recorded assets.
pub open spec fn next_asset_id(count: nat) -> Seq<char> {
    "asset-"@ + crate::numbers::decimal_digits(count + 1)
}

/// The body hash of a response: the lowercase hexadecimal SHA-256 digest.
pub open spec fn body_hash(body: Option<Seq<u8>>) -> Option<Seq<char>> {
    match body {
        Some(b) => Some(crate::numbers::hex_text(sha256_of(b))),
        None => None,
    }
}

/// The key under which a body is kept: none without a body, without
/// capture or in memory storage; otherwise the hash where bodies are
/// shared, else the asset's own id.
pub open spec fn body_key_for(
    cfg: CacheConfig,
    body: Option<Seq<u8>>,
    capture_body: bool,
    asset_id: Seq<char>,
) -> Option<Seq<char>> {
    if body is Some && capture_body && storage_mode_setting(cfg.storage_mode@) != StorageMode::Memory {
        if cfg.dedupe_bodies { body_hash(body) } else { Some(asset_id) }
    } else {
        None
    }
}

/// The time between two optional timestamps.
pub open spec fn duration_for(start: Option<Seq<char>>, end: Option<Seq<char>>) -> Option<u64> {
    match (start, end) {
        (Some(s), Some(e)) => rfc3339_duration_ms(s, e),
        _ => None,
    }
}

/// The view of an optional byte slice.
pub open spec fn opt_bytes(b: Option<&[u8]>) -> Option<Seq<u8>> {
    match b {
        Some(x) => Some(x@),
        None => None,
    }
}

/// Whether `m` is the metadata recorded for a response.
pub open spec fn recorded_as(
    m: AssetMetadata,
    store_cfg: CacheConfig,
    profile_id: Seq<char>,
    pins: Seq<(String, bool)>,
    count: nat,
    url: Seq<char>,
    final_url: Option<String>,
    method: Option<String>,
    status_code: Option<u16>,
    mime: Seq<char>,
    body: Option<Seq<u8>>,
    headers: Seq<(String, String)>,
    is_third_party: bool,
    authenticated: bool,
    session_id: Option<String>,
    tab_id: Option<String>,
    request_id: Option<String>,
    request_started_at: Option<String>,
    response_finished_at: Option<String>,
) -> bool {
    let size: u64 = match body { Some(b) => b.len() as u64, None => 0 };
    let d = capture_decision(store_cfg, url, mime, size, is_third_party, authenticated);
    &&& m.asset_id@ == next_asset_id(count)
    &&& m.url@ == url
    &&& m.final_url == final_url
    &&& m.method == method
    &&& m.status_code == status_code
    &&& m.mime@ == mime
    &&& m.size_bytes == size
    &&& opt_view(m.hash) == body_hash(body)
    &&& opt_view(m.body_key) == body_key_for(store_cfg, body, d.1, next_asset_id(count))
    &&& keys_ascending(m.response_headers@)
    &&& (forall|k: Seq<char>| #[trigger] assoc_get(pairs_view(m.response_headers@), k) == last_header(headers, k))
    &&& m.request_started_at == request_started_at
    &&& m.response_finished_at == response_finished_at
    &&& m.duration_ms == duration_for(opt_view(request_started_at), opt_view(response_finished_at))
    &&& m.capture_mode == d.0
    &&& m.truncated == d.2
    &&& m.is_third_party == is_third_party
    &&& m.authenticated == authenticated
    &&& m.pinned == match body_hash(body) { Some(h) => pin_flag(pins, h), None => false }
    &&& m.storage_mode == storage_mode_setting(store_cfg.storage_mode@)
    &&& m.profile_id@ == profile_id
    &&& m.session_id == session_id
    &&& m.tab_id == tab_id
    &&& m.request_id == request_id
}

impl AssetStore {
    /// Records a response and returns its metadata. The body itself is not
    /// written here: where the metadata carries a body key, the caller
    /// stores the body under that key.
    pub fn record_asset_with_timing(
        &mut self,
        url: &str,
        final_url: Option<String>,
        method: Option<String>,
        status_code: Option<u16>,
        mime: &str,
        body: Option<&[u8]>,
        headers: Vec<(String, String)>,
        is_third_party: bool,
        authenticated: bool,
        session_id: Option<String>,
        tab_id: Option<String>,
        request_id: Option<String>,
        request_started_at: Option<String>,
        response_finished_at: Option<String>,
    ) -> (r: AssetMetadata)
        requires
            old(self).spec_entries().len() < u64::MAX,
        ensures
            recorded_as(r, old(self).spec_config(), old(self).spec_profile_id(), old(self).spec_pins(),
                old(self).spec_entries().len(), url@, final_url, method, status_code, mime@, opt_bytes(body),
                headers@, is_third_party, authenticated, session_id, tab_id, request_id,
                request_started_at, response_finished_at),
            final(self).spec_entries().len() == old(self).spec_entries().len() + 1,
            forall|i: int| 0 <= i < old(self).spec_entries().len() ==> #[trigger] final(self).spec_entries()[i] == old(self).spec_entries()[i],
            same_asset(final(self).spec_entries().last(), r),
            final(self).spec_config() == old(self).spec_config(),
            final(self).spec_pins() == old(self).spec_pins(),
            final(self).spec_profile_id() == old(self).spec_profile_id(),
    {
        let count = self.entries.len() as u64;
        let prefix = chars_of("asset-");
        let digits = crate::numbers::decimal_string(count + 1);
        let idc = concat_chars(prefix.as_slice(), digits.as_slice());
        let asset_id = string_of(idc.as_slice());
        let size_bytes: u64 = match body {
            Some(bytes) => bytes.len() as u64,
            None => 0,
        };
        let decision = self.evaluate_capture(url, mime, size_bytes, is_third_party, authenticated);
        let storage = self.storage_mode();
        let mut hash: Option<String> = None;
        let mut body_key: Option<String> = None;
        if let Some(bytes) = body {
            let digest = sha256_digest(bytes);
            let hex_digest = crate::numbers::hex_encode(digest.as_slice());
            if decision.capture_body && storage != StorageMode::Memory {
                let key = if self.config.dedupe_bodies { hex_digest.clone() } else { asset_id.clone() };
                body_key = Some(key);
            }
            hash = Some(hex_digest);
        }
        let now = now_rfc3339();
        let duration_ms = match (&request_started_at, &response_finished_at) {
            (Some(start), Some(end)) => duration_between(start.as_str(), end.as_str()),
            _ => None,
        };
        let pinned = match &hash {
            Some(h) => pin_flag_exec(&self.pinned, h),
            None => false,
        };
        let metadata = AssetMetadata {
            asset_id,
            url: owned(url),
            final_url,
            method,
            status_code,
            mime: owned(mime),
            size_bytes,
            hash,
            body_key,
            created_at: now,
            response_headers: normalize_headers(&headers),
            request_started_at,
            response_finished_at,
            duration_ms,
            capture_mode: decision.mode,
            truncated: decision.truncated,
            is_third_party,
            authenticated,
            pinned,
            storage_mode: storage,
            profile_id: self.profile_id.clone(),
            session_id,
            tab_id,
            request_id,
        };
        let copy = clone_asset(&metadata);
        self.entries.push(copy);
        metadata
    }
}

/// How many assets kept a body.
pub open spec fn count_with_body(entries: Seq<AssetMetadata>) -> nat
    decreases entries.len(),
{
    if entries.len() == 0 {
        0
    } else {
        count_with_body(entries.drop_last()) + if entries.last().body_key is Some { 1nat } else { 0nat }
    }
}

/// Whether some asset before position `n` keeps its body under `key`.
pub open spec fn key_seen_before(entries: Seq<AssetMetadata>, n: int, key: Seq<char>) -> bool {
    exists|j: int| 0 <= j < n && opt_view(#[trigger] entries[j].body_key) == Some(key)
}

/// How many distinct body keys the assets use: the assets whose key no
/// earlier asset uses.
pub open spec fn count_distinct_keys(entries: Seq<AssetMetadata>) -> nat
    decreases entries.len(),
{
    if entries.len() == 0 {
        0
    } else {
        let n = entries.len() - 1;
        count_distinct_keys(entries.drop_last()) + match entries.last().body_key {
            Some(k) => if key_seen_before(entries, n, k@) { 0nat } else { 1nat },
            None => 0nat,
        }
    }
}

/// The position of the most recently created asset, by its creation time
/// compared as text; of several equally recent, the last recorded.
pub open spec fn latest_index(entries: Seq<AssetMetadata>) -> Option<int>
    decreases entries.len(),
{
    if entries.len() == 0 {
        None
    } else {
        let n = entries.len() - 1;
        match latest_index(entries.drop_last()) {
            None => Some(n),
            Some(b) => if seq_lt(entries[n].created_at@, entries[b].created_at@) { Some(b) } else { Some(n) },
        }
    }
}

/// The ids of assets.
pub open spec fn ids_of(entries: Seq<AssetMetadata>) -> Seq<Seq<char>> {
    Seq::new(entries.len(), |i: int| entries[i].asset_id@)
}

/// The ids after merging: an imported asset keeps its id unless an asset
/// already in the store (or imported before it) has it, in which case it
/// becomes "asset-" and one more than the number of assets then in the
/// store.
pub open spec fn merged_ids(ids: Seq<Seq<char>>, imported: Seq<Seq<char>>) -> Seq<Seq<char>>
    decreases imported.len(),
{
    if imported.len() == 0 {
        ids
    } else {
        let before = merged_ids(ids, imported.drop_last());
        let e = imported.last();
        before.push(if before.contains(e) { next_asset_id(before.len()) } else { e })
    }
}

proof fn lemma_merged_ids_len(ids: Seq<Seq<char>>, imported: Seq<Seq<char>>)
    ensures
        merged_ids(ids, imported).len() == ids.len() + imported.len(),
    decreases imported.len(),
{
    if imported.len() > 0 {
        lemma_merged_ids_len(ids, imported.drop_last());
    }
}

/// Whether exported text holds a JSON array (else one asset per line).
pub open spec fn json_array_text(data: Seq<char>) -> bool {
    let t = trim_start(data);
    t.len() > 0 && t[0] == '['
}

/// Whether exported text holds a JSON array rather than one asset per line.
pub fn is_json_array_text(data: &str) -> (r: bool)
    ensures
        r == json_array_text(data@),
{
    let v = chars_of(data);
    let t = trim_start_chars(v.as_slice());
    t.len() > 0 && t[0] == '['
}

/// Whether a blob's bytes are those of the given hash: the hexadecimal
/// SHA-256 digest of the bytes equals the hash.
pub fn blob_matches_hash(bytes: &[u8], hash: &str) -> (r: bool)
    ensures
        r == (crate::numbers::hex_text(sha256_of(bytes@)) == hash@),
{
    let digest = sha256_digest(bytes);
    let hex = crate::numbers::hex_encode(digest.as_slice());
    str_eq(hex.as_str(), hash)
}

impl AssetStore {
    /// The counts of the store's statistics: the assets, those that kept a
    /// body, and the distinct body keys.
    pub fn stats_counts(&self) -> (r: (usize, usize, usize))
        ensures
            r.0 == self.spec_entries().len(),
            r.1 == count_with_body(self.spec_entries()),
            r.2 == count_distinct_keys(self.spec_entries()),
    {
        let mut with_body: usize = 0;
        let mut distinct: usize = 0;
        let mut i: usize = 0;
        while i < self.entries.len()
            invariant
                i <= self.entries@.len(),
                with_body == count_with_body(self.entries@.subrange(0, i as int)),
                distinct == count_distinct_keys(self.entries@.subrange(0, i as int)),
                with_body <= i,
                distinct <= i,
            decreases self.entries@.len() - i,
        {
            let ghost pre = self.entries@.subrange(0, i as int + 1);
            proof {
                assert(pre.drop_last() =~= self.entries@.subrange(0, i as int));
                lemma_count_bounds(pre);
            }
            match &self.entries[i].body_key {
                Some(k) => {
                    with_body = with_body + 1;
                    let mut j: usize = 0;
                    let mut seen = false;
                    while j < i && !seen
                        invariant
                            j <= i < self.entries@.len(),
                            pre == self.entries@.subrange(0, i as int + 1),
                            self.entries@[i as int].body_key == Some(*k),
                            seen ==> key_seen_before(pre, i as int, k@),
                            !seen ==> forall|m: int| 0 <= m < j ==> opt_view(pre[m].body_key) != Some(k@),
                        decreases i - j, if seen { 0int } else { 1int },
                    {
                        let hit = match &self.entries[j].body_key {
                            Some(other) => str_eq(other.as_str(), k.as_str()),
                            None => false,
                        };
                        if hit {
                            assert(pre[j as int] == self.entries@[j as int]);
                            seen = true;
                        } else {
                            assert(pre[j as int] == self.entries@[j as int]);
                            j = j + 1;
                        }
                    }
                    if !seen {
                        distinct = distinct + 1;
                    }
                },
                None => {},
            }
            i = i + 1;
        }
        assert(self.entries@.subrange(0, self.entries@.len() as int) =~= self.entries@);
        (self.entries.len(), with_body, distinct)
    }

    /// The most recently created asset.
    pub fn latest_entry(&self) -> (r: Option<&AssetMetadata>)
        ensures
            match r {
                Some(e) => latest_index(self.spec_entries()) matches Some(i) && *e == self.spec_entries()[i],
                None => latest_index(self.spec_entries()) is None,
            },
    {
        let mut best: Option<usize> = None;
        let mut i: usize = 0;
        while i < self.entries.len()
            invariant
                i <= self.entries@.len(),
                match best {
                    Some(b) => b < i && latest_index(self.entries@.subrange(0, i as int)) == Some(b as int),
                    None => i == 0 && latest_index(self.entries@.subrange(0, i as int)) is None,
                },
            decreases self.entries@.len() - i,
        {
            let ghost pre = self.entries@.subrange(0, i as int + 1);
            proof {
                assert(pre.drop_last() =~= self.entries@.subrange(0, i as int));
            }
            match best {
                None => {
                    best = Some(i);
                },
                Some(b) => {
                    let cur = chars_of(self.entries[i].created_at.as_str());
                    let top = chars_of(self.entries[b].created_at.as_str());
                    proof {
                        assert(pre[i as int] == self.entries@[i as int]);
                        assert(pre[b as int] == self.entries@[b as int]);
                    }
                    if !chars_lt(cur.as_slice(), top.as_slice()) {
                        best = Some(i);
                    }
                },
            }
            i = i + 1;
        }
        assert(self.entries@.subrange(0, self.entries@.len() as int) =~= self.entries@);
        match best {
            Some(b) => Some(&self.entries[b]),
            None => None,
        }
    }

    /// Adds imported assets after the recorded ones, renaming an imported
    /// asset whose id is already taken; returns how many were added.
    pub fn merge_imported(&mut self, imported: Vec<AssetMetadata>) -> (r: usize)
        requires
            old(self).spec_entries().len() + imported@.len() < usize::MAX,
        ensures
            r == imported@.len(),
            final(self).spec_entries().len() == old(self).spec_entries().len() + imported@.len(),
            ids_of(final(self).spec_entries()) == merged_ids(ids_of(old(self).spec_entries()), ids_of(imported@)),
            forall|i: int| 0 <= i < old(self).spec_entries().len() ==> #[trigger] final(self).spec_entries()[i] == old(self).spec_entries()[i],
            forall|k: int| 0 <= k < imported@.len() ==> #[trigger] final(self).spec_entries()[old(self).spec_entries().len() + k]
                == (AssetMetadata { asset_id: final(self).spec_entries()[old(self).spec_entries().len() + k].asset_id, ..imported@[k] }),
            final(self).spec_config() == old(self).spec_config(),
            final(self).spec_profile_id() == old(self).spec_profile_id(),
            final(self).spec_pins() == old(self).spec_pins(),
    {
        let ghost base = self.entries@;
        let ghost all = imported@;
        let n = imported.len();
        let mut rest = imported;
        let mut i: usize = 0;
        while i < n
            invariant
                n == all.len(),
                i <= n,
                base.len() + n < usize::MAX,
                rest@ == all.subrange(i as int, n as int),
                self.entries@.len() == base.len() + i,
                ids_of(self.entries@) == merged_ids(ids_of(base), ids_of(all.subrange(0, i as int))),
                forall|m: int| 0 <= m < base.len() ==> #[trigger] self.entries@[m] == base[m],
                forall|k: int| 0 <= k < i ==> #[trigger] self.entries@[base.len() + k]
                    == (AssetMetadata { asset_id: self.entries@[base.len() + k].asset_id, ..all[k] }),
                self.config == old(self).config,
                self.profile_id == old(self).profile_id,
                self.pinned == old(self).pinned,
            decreases n - i,
        {
            let ghost ids_before = ids_of(self.entries@);
            let ghost pre = ids_of(all.subrange(0, i as int + 1));
            proof {
                assert(pre.drop_last() =~= ids_of(all.subrange(0, i as int)));
                assert(pre.last() == all[i as int].asset_id@);
            }
            let mut e = rest.remove(0);
            assert(e == all[i as int]);
            let mut clash = false;
            let mut j: usize = 0;
            while j < self.entries.len() && !clash
                invariant
                    j <= self.entries@.len(),
                    ids_before == ids_of(self.entries@),
                    clash ==> ids_before.contains(e.asset_id@),
                    !clash ==> forall|m: int| 0 <= m < j ==> ids_before[m] != e.asset_id@,
                decreases self.entries@.len() - j, if clash { 0int } else { 1int },
            {
                if str_eq(self.entries[j].asset_id.as_str(), e.asset_id.as_str()) {
                    assert(ids_before[j as int] == e.asset_id@);
                    clash = true;
                } else {
                    j = j + 1;
                }
            }
            if clash {
                let p = chars_of("asset-");
                let d = crate::numbers::decimal_string((self.entries.len() + 1) as u64);
                let all_chars = concat_chars(p.as_slice(), d.as_slice());
                e.asset_id = string_of(all_chars.as_slice());
            }
            let ghost pushed = e;
            self.entries.push(e);
            proof {
                assert(ids_of(self.entries@) =~= ids_before.push(pushed.asset_id@));
                assert(self.entries@[base.len() + i] == pushed);
            }
            i = i + 1;
        }
        assert(all.subrange(0, n as int) =~= all);
        n
    }

    /// The blob to check for a hash: the hash itself when such a blob
    /// exists, else the body key of the first asset with that hash (if it
    /// has one), else the hash.
    pub fn verify_blob_key(&self, hash: &str, hash_blob_exists: bool) -> (r: String)
        ensures
            r@ == if hash_blob_exists {
                hash@
            } else {
                match first_with_hash(self.spec_entries(), hash@) {
                    Some(i) => match self.spec_entries()[i].body_key {
                        Some(k) => k@,
                        None => hash@,
                    },
                    None => hash@,
                }
            },
    {
        if hash_blob_exists {
            return owned(hash);
        }
        let mut i: usize = 0;
        while i < self.entries.len()
            invariant
                !hash_blob_exists,
                i <= self.entries@.len(),
                forall|j: int| 0 <= j < i ==> opt_view(self.entries@[j].hash) != Some(hash@),
            decreases self.entries@.len() - i,
        {
            let hit = match &self.entries[i].hash {
                Some(h) => str_eq(h.as_str(), hash),
                None => false,
            };
            if hit {
                proof { lemma_first_with_hash(self.entries@, hash@, i as int); }
                return match &self.entries[i].body_key {
                    Some(k) => k.clone(),
                    None => owned(hash),
                };
            }
            i = i + 1;
        }
        proof { lemma_first_with_hash_none(self.entries@, hash@); }
        owned(hash)
    }
}

/// The position of the first asset with the given hash.
pub open spec fn first_with_hash(entries: Seq<AssetMetadata>, hash: Seq<char>) -> Option<int>
    decreases entries.len(),
{
    if entries.len() == 0 {
        None
    } else if opt_view(entries[0].hash) == Some(hash) {
        Some(0)
    } else {
        match first_with_hash(entries.subrange(1, entries.len() as int), hash) {
            Some(i) => Some(i + 1),
            None => None,
        }
    }
}

proof fn lemma_first_with_hash(entries: Seq<AssetMetadata>, hash: Seq<char>, i: int)
    requires
        0 <= i < entries.len(),
        opt_view(entries[i].hash) == Some(hash),
        forall|j: int| 0 <= j < i ==> opt_view(entries[j].hash) != Some(hash),
    ensures
        first_with_hash(entries, hash) == Some(i),
    decreases i,
{
    if i > 0 {
        let t = entries.subrange(1, entries.len() as int);
        assert forall|j: int| 0 <= j < i - 1 implies opt_view(t[j].hash) != Some(hash) by {
            assert(t[j] == entries[j + 1]);
        }
        lemma_first_with_hash(t, hash, i - 1);
    }
}

proof fn lemma_first_with_hash_none(entries: Seq<AssetMetadata>, hash: Seq<char>)
    requires
        forall|j: int| 0 <= j < entries.len() ==> opt_view(entries[j].hash) != Some(hash),
    ensures
        first_with_hash(entries, hash) is None,
    decreases entries.len(),
{
    if entries.len() > 0 {
        let t = entries.subrange(1, entries.len() as int);
        assert forall|j: int| 0 <= j < t.len() implies opt_view(t[j].hash) != Some(hash) by {
            assert(t[j] == entries[j + 1]);
        }
        lemma_first_with_hash_none(t, hash);
    }
}

proof fn lemma_count_bounds(entries: Seq<AssetMetadata>)
    ensures
        count_with_body(entries) <= entries.len(),
        count_distinct_keys(entries) <= entries.len(),
    decreases entries.len(),
{
    if entries.len() > 0 {
        lemma_count_bounds(entries.drop_last());
    }
}

impl AssetStore {
    /// Records an asset whose request and response times are not known.
    pub fn record_asset(
        &mut self,
        url: &str,
        final_url: Option<String>,
        method: Option<String>,
        status_code: Option<u16>,
        mime: &str,
        body: Option<&[u8]>,
        headers: Vec<(String, String)>,
        is_third_party: bool,
        authenticated: bool,
        session_id: Option<String>,
        tab_id: Option<String>,
        request_id: Option<String>,
    ) -> (r: AssetMetadata)
        requires
            old(self).spec_entries().len() < u64::MAX,
        ensures
            recorded_as(r, old(self).spec_config(), old(self).spec_profile_id(), old(self).spec_pins(),
                old(self).spec_entries().len(), url@, final_url, method, status_code, mime@, opt_bytes(body),
                headers@, is_third_party, authenticated, session_id, tab_id, request_id, None, None),
            final(self).spec_entries().len() == old(self).spec_entries().len() + 1,
            forall|i: int| 0 <= i < old(self).spec_entries().len() ==> #[trigger] final(self).spec_entries()[i] == old(self).spec_entries()[i],
            same_asset(final(self).spec_entries().last(), r),
            final(self).spec_config() == old(self).spec_config(),
            final(self).spec_pins() == old(self).spec_pins(),
            final(self).spec_profile_id() == old(self).spec_profile_id(),
    {
        self.record_asset_with_timing(url, final_url, method, status_code, mime, body, headers, is_third_party,
            authenticated, session_id, tab_id, request_id, None, None)
    }
}


/// With shared bodies, a body is kept under its hash: two assets with the
/// same captured body share one key, whatever their ids.
pub proof fn law_dedupe_shares_body_key(cfg: CacheConfig, body: Seq<u8>, id1: Seq<char>, id2: Seq<char>)
    requires
        cfg.dedupe_bodies,
        storage_mode_setting(cfg.storage_mode@) != StorageMode::Memory,
    ensures
        body_key_for(cfg, Some(body), true, id1) == body_key_for(cfg, Some(body), true, id2),
        body_key_for(cfg, Some(body), true, id1) == body_hash(Some(body)),
{
}

/// Without shared bodies, each asset keeps its body under its own id.
pub proof fn law_no_dedupe_keys_by_id(cfg: CacheConfig, body: Seq<u8>, id: Seq<char>)
    requires
        !cfg.dedupe_bodies,
        storage_mode_setting(cfg.storage_mode@) != StorageMode::Memory,
    ensures
        body_key_for(cfg, Some(body), true, id) == Some(id),
{
}

/// In memory storage no body is kept.
pub proof fn law_memory_keeps_no_body(cfg: CacheConfig, body: Option<Seq<u8>>, capture: bool, id: Seq<char>)
    requires
        storage_mode_setting(cfg.storage_mode@) == StorageMode::Memory,
    ensures
        body_key_for(cfg, body, capture, id) is None,
{
}

/// A body larger than the limit is never captured, and is marked truncated.
pub proof fn law_oversized_body_not_captured(cfg: CacheConfig, url: Seq<char>, mime: Seq<char>, size: u64, third: bool, auth: bool)
    ensures
        capture_decision(cfg, url, mime, size, third, auth).2 ==> !capture_decision(cfg, url, mime, size, third, auth).1,
{
}

/// Unpinning a hash clears its pin and leaves every other hash's pin.
pub proof fn law_unpin_clears(pins: Seq<(String, bool)>, hash: Seq<char>, other: Seq<char>)
    ensures
        pin_flag(filter_pins(pins, hash), hash) == false,
        other != hash ==> pin_flag(filter_pins(pins, hash), other) == pin_flag(pins, other),
{
    lemma_filter_pins(pins, hash, other);
}

impl AssetStore {
    /// Removes the assets at the given positions, in turn (each position in
    /// the list as it stands at that moment), as a collection plan says.
    pub fn apply_removals(&mut self, removals: &Vec<usize>)
        requires
            removals_fit(old(self).spec_entries().len() as int, usizes_view(removals@)),
        ensures
            final(self).spec_entries() == after_removals(old(self).spec_entries(), usizes_view(removals@)),
            final(self).spec_config() == old(self).spec_config(),
            final(self).spec_pins() == old(self).spec_pins(),
            final(self).spec_profile_id() == old(self).spec_profile_id(),
    {
        let ghost rv = usizes_view(removals@);
        let ghost e0 = self.entries@;
        let mut i: usize = 0;
        assert(rv.subrange(0, 0) =~= Seq::<int>::empty());
        while i < removals.len()
            invariant
                i <= removals@.len(),
                rv == usizes_view(removals@),
                removals_fit(e0.len() as int, rv),
                self.entries@ == after_removals(e0, rv.subrange(0, i as int)),
                self.entries@.len() == e0.len() - i,
                self.config == old(self).config,
                self.pinned == old(self).pinned,
                self.profile_id == old(self).profile_id,
            decreases removals@.len() - i,
        {
            let ghost pre = rv.subrange(0, i as int + 1);
            proof {
                assert(pre.drop_last() =~= rv.subrange(0, i as int));
                assert(pre.last() == rv[i as int]);
                assert(0 <= rv[i as int] < e0.len() - i);
            }
            self.entries.remove(removals[i]);
            i = i + 1;
        }
        assert(rv.subrange(0, removals@.len() as int) =~= rv);
    }
}

/// A third party's body is never kept in "deny" mode: once the host is
/// allowed, its policy does not refuse bodies and any required
/// authentication is present, a third-party response keeps metadata only,
/// with no body, untruncated, for the reason "third-party-denied" —
/// whatever its MIME type and size.
pub proof fn law_third_party_denied(cfg: CacheConfig, url: Seq<char>, mime: Seq<char>, size_bytes: u64, authenticated: bool)
    requires
        host_allowed(cfg, url),
        policy_at(cfg, host_policy_index(cfg, url)) matches Some(p) ==> p.capture_body != Some(false),
        cfg.authenticated_only ==> authenticated,
        cfg.third_party_mode@ == "deny"@,
    ensures
        capture_decision(cfg, url, mime, size_bytes, true, authenticated)
            == (CaptureMode::MetadataOnly, false, false, "third-party-denied"@),
        !capture_decision(cfg, url, mime, size_bytes, true, authenticated).1,
{
}

/// The assets of `entries` that a query returns, in order.
pub open spec fn query_results(entries: Seq<AssetMetadata>, q: AssetQuery) -> Seq<AssetMetadata> {
    filter_assets(entries, |e: AssetMetadata| query_matches(q, e))
}

/// Every asset a query returns satisfies each of its filters; in
/// particular a query for status `c` returns only assets whose status is
/// `c`, and an asset with another status (or none) is never returned.
pub proof fn law_query_results_match(entries: Seq<AssetMetadata>, q: AssetQuery)
    ensures
        forall|i: int| 0 <= i < query_results(entries, q).len() ==> {
            let a = #[trigger] query_results(entries, q)[i];
            &&& (q.status_code matches Some(c) ==> a.status_code == Some(c))
            &&& (q.url matches Some(u) ==> contains_seq(a.url@, u@))
            &&& (q.mime matches Some(m) ==> contains_seq(a.mime@, m@))
            &&& (q.hash matches Some(h) ==> opt_view(a.hash) == Some(h@))
            &&& (q.session_id matches Some(sid) ==> opt_view(a.session_id) == Some(sid@))
            &&& (q.tab_id matches Some(t) ==> opt_view(a.tab_id) == Some(t@))
        },
        forall|j: int| 0 <= j < entries.len() && (q.status_code matches Some(c) && entries[j].status_code != Some(c))
            ==> !query_results(entries, q).contains(#[trigger] entries[j]),
{
    let keep = |e: AssetMetadata| query_matches(q, e);
    lemma_filter_assets_keeps(entries, keep);
}

proof fn lemma_filter_assets_keeps(entries: Seq<AssetMetadata>, keep: spec_fn(AssetMetadata) -> bool)
    ensures
        forall|i: int| 0 <= i < filter_assets(entries, keep).len() ==> keep(#[trigger] filter_assets(entries, keep)[i]),
        forall|a: AssetMetadata| filter_assets(entries, keep).contains(a) ==> keep(a),
    decreases entries.len(),
{
    if entries.len() > 0 {
        lemma_filter_assets_keeps(entries.drop_last(), keep);
        let f = filter_assets(entries, keep);
        let rest = filter_assets(entries.drop_last(), keep);
        assert forall|i: int| 0 <= i < f.len() implies keep(#[trigger] f[i]) by {
            if i < rest.len() {
                assert(f[i] == rest[i]);
            }
        }
        assert forall|a: AssetMetadata| f.contains(a) implies keep(a) by {
            let i = choose|i: int| 0 <= i < f.len() && f[i] == a;
            assert(keep(f[i]));
        }
    }
}

} // verus!
