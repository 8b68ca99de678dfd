//! The decisions of the automation server: which requests are admitted,
//! how often, what waits for a user's approval, what the activity log keeps,
//! and what a cache query answers.

use vstd::prelude::*;
use crate::assoc::{assoc_get, lemma_assoc_get_first, lemma_assoc_get_absent, lemma_assoc_update_first, lemma_assoc_push_new};
use crate::cache::{AssetMetadata, AssetQuery, clone_opt, opt_eq, text_contains, to_lowercase, lowercase_of};
use crate::numbers::{decimal_string, decimal_digits};
use crate::permissions::{Capability, PermissionDecision, PermissionPolicy};
use crate::text::{chars_of, concat_chars, contains_seq, owned, str_eq, string_of, has_prefix, starts_with_str};
use crate::urls::opt_view;
use crate::config::strings_view;
use crate::shell::ShellCommand;

verus! {

/// Where a recorded automation request stands.
#[derive(Debug, Clone, Copy, PartialEq, Eq)]
pub enum AutomationActivityStatus {
    Pending,
    Running,
    Success,
    Failed,
}

/// One entry of the activity log.
#[derive(Debug, Clone)]
pub struct AutomationActivity {
    pub id: String,
    pub command: String,
    pub status: AutomationActivityStatus,
    pub timestamp: String,
    pub output: Option<String>,
}

/// What a client sees of a recorded asset.
#[derive(Debug, Clone)]
pub struct AutomationAssetSummary {
    pub asset_id: String,
    pub url: String,
    pub status_code: Option<u16>,
    pub mime: String,
    pub size_bytes: u64,
    pub hash: Option<String>,
    pub created_at: String,
    pub session_id: Option<String>,
    pub tab_id: Option<String>,
}

/// A capability event published to subscribers.
#[derive(Debug, Clone)]
pub struct AutomationCapabilityEvent {
    pub message: String,
}

/// A chunk of a terminal session's output published to subscribers.
#[derive(Debug, Clone)]
pub struct AutomationTerminalOutputEvent {
    pub session_id: String,
    pub stream: String,
    pub chunk: String,
    pub done: bool,
    pub exit_code: Option<i32>,
    pub error: Option<String>,
}

/// A message with an optional correlation id.
#[derive(Debug, Clone)]
pub struct AutomationEnvelope<T> {
    pub id: Option<String>,
    pub payload: T,
}

/// The answer to a request.
#[derive(Debug, Clone)]
pub struct AutomationResponse<T> {
    pub id: Option<String>,
    pub ok: bool,
    pub result: Option<T>,
    pub error: Option<String>,
}

impl<T> AutomationResponse<T> {
    /// A successful answer.
    pub fn success(id: Option<String>, result: Option<T>) -> (r: Self)
        ensures
            r.id == id,
            r.ok,
            r.result == result,
            r.error is None,
    {
        AutomationResponse { id, ok: true, result, error: None }
    }

    /// A refusal with its reason.
    pub fn failure(id: Option<String>, message: &str) -> (r: Self)
        ensures
            r.id == id,
            !r.ok,
            r.result is None,
            r.error matches Some(e) && e@ == message@,
    {
        AutomationResponse { id, ok: false, result: None, error: Some(owned(message)) }
    }
}

/// The summary of an asset: its id, url, status, MIME type, size, hash,
/// time and the session and tab it came from.
pub open spec fn summary_of(e: AssetMetadata) -> AutomationAssetSummary {
    AutomationAssetSummary {
        asset_id: e.asset_id,
        url: e.url,
        status_code: e.status_code,
        mime: e.mime,
        size_bytes: e.size_bytes,
        hash: e.hash,
        created_at: e.created_at,
        session_id: e.session_id,
        tab_id: e.tab_id,
    }
}

/// The summary a client sees of an asset.
pub fn asset_summary_from_metadata(entry: &AssetMetadata) -> (r: AutomationAssetSummary)
    ensures
        r == summary_of(*entry),
{
    AutomationAssetSummary {
        asset_id: entry.asset_id.clone(),
        url: entry.url.clone(),
        status_code: entry.status_code,
        mime: entry.mime.clone(),
        size_bytes: entry.size_bytes,
        hash: clone_opt(&entry.hash),
        created_at: entry.created_at.clone(),
        session_id: clone_opt(&entry.session_id),
        tab_id: clone_opt(&entry.tab_id),
    }
}

/// The activity log keeps at most this many entries.
pub const ACTIVITY_LOG_CAPACITY: usize = 128;

/// The log after recording `a`: the oldest entry leaves first when the log
/// is full.
pub open spec fn log_after_record(log: Seq<AutomationActivity>, a: AutomationActivity) -> Seq<AutomationActivity> {
    if log.len() >= ACTIVITY_LOG_CAPACITY { log.drop_first().push(a) } else { log.push(a) }
}

/// Records an activity at the end of the log.
pub fn record_activity(log: &mut Vec<AutomationActivity>, activity: AutomationActivity)
    ensures
        final(log)@ == log_after_record(old(log)@, activity),
{
    if log.len() >= ACTIVITY_LOG_CAPACITY {
        log.remove(0);
    }
    log.push(activity);
}

/// Recording never lets a log that fits grow past its capacity, and keeps
/// the new entry as its last.
pub proof fn lemma_activity_log_bounded(log: Seq<AutomationActivity>, a: AutomationActivity)
    requires
        log.len() <= ACTIVITY_LOG_CAPACITY,
    ensures
        log_after_record(log, a).len() <= ACTIVITY_LOG_CAPACITY,
        log_after_record(log, a).last() == a,
{
}

/// The position of the first activity with the given id.
pub open spec fn first_activity(log: Seq<AutomationActivity>, id: Seq<char>) -> Option<int> {
    if exists|i: int| 0 <= i < log.len() && log[i].id@ == id {
        Some(choose|i: int| 0 <= i < log.len() && log[i].id@ == id && forall|j: int| 0 <= j < i ==> log[j].id@ != id)
    } else {
        None
    }
}

/// Marks the first activity with the given id as finished: `Success` when
/// the answer was ok, else `Failed`, with the answer's error as output.
pub fn complete_activity(log: &mut Vec<AutomationActivity>, id: &str, ok: bool, error: Option<String>)
    ensures
        final(log)@.len() == old(log)@.len(),
        forall|i: int| 0 <= i < old(log)@.len() && !(exists|j: int| 0 <= j <= i && #[trigger] old(log)@[j].id@ == id@)
            ==> #[trigger] final(log)@[i] == old(log)@[i],
        forall|i: int| 0 <= i < old(log)@.len() && old(log)@[i].id@ == id@
            && (forall|j: int| 0 <= j < i ==> old(log)@[j].id@ != id@) ==> {
                &&& final(log)@[i].id == old(log)@[i].id
                &&& final(log)@[i].command == old(log)@[i].command
                &&& final(log)@[i].timestamp == old(log)@[i].timestamp
                &&& final(log)@[i].status == (if ok { AutomationActivityStatus::Success } else { AutomationActivityStatus::Failed })
                &&& final(log)@[i].output == error
            },
        forall|i: int, k: int| 0 <= k < i < old(log)@.len() && old(log)@[k].id@ == id@ ==> final(log)@[i] == old(log)@[i],
{
    let mut i: usize = 0;
    while i < log.len()
        invariant
            i <= log@.len(),
            log@ == old(log)@,
            forall|j: int| 0 <= j < i ==> log@[j].id@ != id@,
        decreases log@.len() - i,
    {
        if str_eq(log[i].id.as_str(), id) {
            let mut entry = log.remove(i);
            entry.status = if ok { AutomationActivityStatus::Success } else { AutomationActivityStatus::Failed };
            entry.output = error;
            log.insert(i, entry);
            assert forall|m: int| 0 <= m < old(log)@.len() && !(exists|j: int| 0 <= j <= m && #[trigger] old(log)@[j].id@ == id@)
                implies #[trigger] log@[m] == old(log)@[m] by {
                if m >= i {
                    assert(old(log)@[i as int].id@ == id@);
                }
            }
            return;
        }
        i = i + 1;
    }
}

/// The id under which a request is logged: its own id, else "auto-" and
/// the counter.
pub open spec fn activity_id_text(id: Option<Seq<char>>, counter: u64) -> Seq<char> {
    match id {
        Some(s) => s,
        None => "auto-"@ + decimal_digits(counter as nat),
    }
}

/// The id under which a request is logged.
pub fn activity_id_for(id: &Option<String>, counter: u64) -> (r: String)
    ensures
        r@ == activity_id_text(opt_view(*id), counter),
{
    match id {
        Some(s) => s.clone(),
        None => {
            let p = chars_of("auto-");
            let d = decimal_string(counter);
            let all = concat_chars(p.as_slice(), d.as_slice());
            string_of(all.as_slice())
        },
    }
}

/// A gate's outcome as plain values: pass, or the refusal's text.
pub open spec fn gate_view(r: Result<(), String>) -> Result<(), Seq<char>> {
    match r {
        Ok(()) => Ok(()),
        Err(e) => Err(e@),
    }
}

/// What a capability check answers for a decision.
pub open spec fn permission_gate(d: PermissionDecision) -> Result<(), Seq<char>> {
    match d {
        PermissionDecision::Allow => Ok(()),
        PermissionDecision::Ask => Err("approval-required"@),
        PermissionDecision::Deny => Err("capability denied"@),
    }
}

/// Checks a capability against the policy: allowed, waiting for approval,
/// or denied.
pub fn check_permission(policy: &PermissionPolicy, capability: Capability) -> (r: Result<(), String>)
    ensures
        gate_view(r) == permission_gate(policy.spec_decision_for(capability)),
{
    match policy.decision_for(&capability) {
        PermissionDecision::Allow => Ok(()),
        PermissionDecision::Ask => Err(owned("approval-required")),
        PermissionDecision::Deny => Err(owned("capability denied")),
    }
}

/// The tab API answers only when exposed, and then as the policy decides
/// for tab inspection.
pub open spec fn tab_api_gate(expose_tab_api: bool, policy: PermissionPolicy) -> Result<(), Seq<char>> {
    if !expose_tab_api { Err("tab api disabled"@) } else { permission_gate(policy.spec_decision_for(Capability::TabInspect)) }
}

/// The cache API answers only when exposed, and then as the policy decides
/// for cache reads.
pub open spec fn cache_api_gate(expose_cache_api: bool, policy: PermissionPolicy) -> Result<(), Seq<char>> {
    if !expose_cache_api { Err("cache api disabled"@) } else { permission_gate(policy.spec_decision_for(Capability::CacheRead)) }
}

/// The mount API answers unless the policy denies mounts.
pub open spec fn mount_api_gate(policy: PermissionPolicy) -> Result<(), Seq<char>> {
    if policy.spec_decision_for(Capability::VirtualResourceMount) == PermissionDecision::Deny {
        Err("permission denied: virtual-resource-mount"@)
    } else {
        Ok(())
    }
}

/// Whether the tab API may answer.
pub fn ensure_tab_api(expose_tab_api: bool, policy: &PermissionPolicy) -> (r: Result<(), String>)
    ensures
        gate_view(r) == tab_api_gate(expose_tab_api, *policy),
{
    if !expose_tab_api {
        return Err(owned("tab api disabled"));
    }
    check_permission(policy, Capability::TabInspect)
}

/// Whether the cache API may answer.
pub fn ensure_cache_api(expose_cache_api: bool, policy: &PermissionPolicy) -> (r: Result<(), String>)
    ensures
        gate_view(r) == cache_api_gate(expose_cache_api, *policy),
{
    if !expose_cache_api {
        return Err(owned("cache api disabled"));
    }
    check_permission(policy, Capability::CacheRead)
}

/// Whether the mount API may answer.
pub fn ensure_mount_api(policy: &PermissionPolicy) -> (r: Result<(), String>)
    ensures
        gate_view(r) == mount_api_gate(*policy),
{
    if policy.decision_for(&Capability::VirtualResourceMount) == PermissionDecision::Deny {
        return Err(owned("permission denied: virtual-resource-mount"));
    }
    Ok(())
}

/// A rate window is restarted once more than a minute has passed since it
/// began.
pub const RATE_WINDOW_MS: u64 = 60000;

/// A key's window after one more request at time `now_ms`: a new window
/// starts for an unseen key or once the old one is over a minute old, and
/// the count goes up by one (staying at its maximum once reached).
pub open spec fn rate_step(entry: Option<(u64, u32)>, now_ms: u64) -> (u64, u32) {
    let (start, count) = match entry {
        Some(e) => e,
        None => (now_ms, 0u32),
    };
    let (start, count) = if now_ms > start + RATE_WINDOW_MS { (now_ms, 0u32) } else { (start, count) };
    (start, if count < u32::MAX { (count + 1) as u32 } else { count })
}

/// At least one request per minute is always allowed.
pub open spec fn effective_limit(max_per_minute: u32) -> u32 {
    if max_per_minute < 1 { 1 } else { max_per_minute }
}

/// Counts requests per key in windows of a minute.
pub struct RateLimiter {
    windows: Vec<(String, (u64, u32))>,
}

/// The windows of a limiter as plain values.
pub open spec fn windows_view(v: Seq<(String, (u64, u32))>) -> Seq<(Seq<char>, (u64, u32))> {
    Seq::new(v.len(), |i: int| (v[i].0@, v[i].1))
}

impl RateLimiter {
    /// The window of each key.
    pub closed spec fn window(&self, key: Seq<char>) -> Option<(u64, u32)> {
        assoc_get(windows_view(self.windows@), key)
    }

    /// A limiter that has seen no request.
    pub fn new() -> (r: Self)
        ensures
            forall|k: Seq<char>| r.window(k) is None,
    {
        let r = RateLimiter { windows: Vec::new() };
        assert forall|k: Seq<char>| r.window(k) is None by {
            lemma_assoc_get_absent(windows_view(r.windows@), k);
        }
        r
    }

    /// Counts one request for `key` at time `now_ms` and refuses it with
    /// "rate-limit" when the window now holds more than the limit.
    pub fn check(&mut self, key: &str, now_ms: u64, max_per_minute: u32) -> (r: Result<(), String>)
        ensures
            final(self).window(key@) == Some(rate_step(old(self).window(key@), now_ms)),
            forall|k: Seq<char>| k != key@ ==> final(self).window(k) == old(self).window(k),
            gate_view(r) == (if rate_step(old(self).window(key@), now_ms).1 > effective_limit(max_per_minute) {
                Err::<(), Seq<char>>("rate-limit"@)
            } else {
                Ok::<(), Seq<char>>(())
            }),
    {
        let ghost before = windows_view(self.windows@);
        let mut i: usize = 0;
        let mut found = false;
        while i < self.windows.len() && !found
            invariant
                i <= self.windows@.len(),
                before == windows_view(self.windows@),
                found ==> i < self.windows@.len() && before[i as int].0 == key@,
                forall|j: int| 0 <= j < i ==> before[j].0 != key@,
            decreases self.windows@.len() - i, if found { 0int } else { 1int },
        {
            if str_eq(self.windows[i].0.as_str(), key) {
                found = true;
            } else {
                i = i + 1;
            }
        }
        let entry: Option<(u64, u32)> = if i < self.windows.len() { Some(self.windows[i].1) } else { None };
        proof {
            if i < self.windows@.len() {
                assert(before[i as int].0 == key@);
                lemma_assoc_get_first(before, i as int, key@);
            } else {
                lemma_assoc_get_absent(before, key@);
            }
        }
        let (mut start, mut count) = match entry {
            Some(e) => e,
            None => (now_ms, 0u32),
        };
        if now_ms > start && now_ms - start > RATE_WINDOW_MS {
            start = now_ms;
            count = 0;
        }
        if count < u32::MAX {
            count = count + 1;
        }
        let limit = if max_per_minute < 1 { 1 } else { max_per_minute };
        if i < self.windows.len() {
            let k = self.windows[i].0.clone();
            self.windows.set(i, (k, (start, count)));
            proof {
                assert(windows_view(self.windows@) =~= before.update(i as int, (key@, (start, count))));
                assert forall|k2: Seq<char>| #[trigger] assoc_get(windows_view(self.windows@), k2)
                    == (if k2 == key@ { Some((start, count)) } else { assoc_get(before, k2) }) by {
                    lemma_assoc_update_first(before, i as int, key@, (start, count), k2);
                }
            }
        } else {
            self.windows.push((owned(key), (start, count)));
            proof {
                assert(windows_view(self.windows@) =~= before.push((key@, (start, count))));
                assert forall|k2: Seq<char>| #[trigger] assoc_get(windows_view(self.windows@), k2)
                    == (if k2 == key@ { Some((start, count)) } else { assoc_get(before, k2) }) by {
                    lemma_assoc_push_new(before, key@, (start, count), k2);
                }
            }
        }
        if count > limit {
            return Err(owned("rate-limit"));
        }
        Ok(())
    }
}

/// Within one minute, a key may pass at most its limit of checks: once a
/// window holds the limit, the next check in the same minute is refused.
pub proof fn lemma_rate_limit_blocks_excess(entry: (u64, u32), now_ms: u64, max_per_minute: u32)
    requires
        entry.1 >= effective_limit(max_per_minute),
        effective_limit(max_per_minute) < u32::MAX,
        now_ms <= entry.0 + RATE_WINDOW_MS,
    ensures
        rate_step(Some(entry), now_ms).1 > effective_limit(max_per_minute),
{
}

/// A window over a minute old starts afresh: the first request in it passes.
pub proof fn lemma_rate_window_resets(entry: (u64, u32), now_ms: u64, max_per_minute: u32)
    requires
        now_ms > entry.0 + RATE_WINDOW_MS,
    ensures
        rate_step(Some(entry), now_ms) == (now_ms, 1u32),
        rate_step(Some(entry), now_ms).1 <= effective_limit(max_per_minute),
{
}

/// What a connection does with one more inbound message at `now_ms`: its
/// window (start, count) after the message, and whether the connection is
/// closed for exceeding the messages allowed per minute.
pub fn socket_message_step(window_start: u64, message_count: u32, now_ms: u64, max_messages_per_minute: u32) -> (r: (u64, u32, bool))
    ensures
        (r.0, r.1) == rate_step(Some((window_start, message_count)), now_ms),
        r.2 == (r.1 > max_messages_per_minute),
{
    let mut start = window_start;
    let mut count = message_count;
    if now_ms > start && now_ms - start > RATE_WINDOW_MS {
        start = now_ms;
        count = 0;
    }
    if count < u32::MAX {
        count = count + 1;
    }
    (start, count, count > max_messages_per_minute)
}

/// An action that waits for a user's approval.
#[derive(Debug, Clone)]
pub enum PendingAction {
    TerminalExec { cmd: String, args: Vec<String>, cwd: Option<String> },
    FsList { url: String },
    FsRead { url: String },
    FsWrite { url: String, body_base64: String },
}

/// A request held back until the user answers.
#[derive(Debug, Clone)]
pub struct PendingApproval {
    pub capability: Capability,
    pub action: PendingAction,
    pub user_agent: Option<String>,
    pub client_ip: Option<String>,
}

/// The requests waiting for approval, by approval id.
pub struct ApprovalBook {
    pending: Vec<(String, PendingApproval)>,
}

/// The entries of a book as plain values.
pub open spec fn approvals_view(v: Seq<(String, PendingApproval)>) -> Seq<(Seq<char>, PendingApproval)> {
    Seq::new(v.len(), |i: int| (v[i].0@, v[i].1))
}

/// Whether a (lowercased) decision approves: "allow" or "approve".
pub open spec fn approves(decision_lower: Seq<char>) -> bool {
    decision_lower == "allow"@ || decision_lower == "approve"@
}

impl ApprovalBook {
    /// No approval id occurs twice.
    #[verifier::type_invariant]
    spec fn ids_unique(&self) -> bool {
        forall|i: int, j: int| 0 <= i < j < self.pending@.len() ==> self.pending@[i].0@ != self.pending@[j].0@
    }

    /// What is waiting under each approval id.
    pub closed spec fn waiting(&self, id: Seq<char>) -> Option<PendingApproval> {
        assoc_get(approvals_view(self.pending@), id)
    }

    /// An empty book.
    pub fn new() -> (r: Self)
        ensures
            forall|id: Seq<char>| r.waiting(id) is None,
    {
        let r = ApprovalBook { pending: Vec::new() };
        assert forall|id: Seq<char>| r.waiting(id) is None by {
            lemma_assoc_get_absent(approvals_view(r.pending@), id);
        }
        r
    }

    fn position(&self, id: &str) -> (r: Option<usize>)
        ensures
            match r {
                Some(i) => i < self.pending@.len() && approvals_view(self.pending@)[i as int].0 == id@
                    && forall|j: int| 0 <= j < i ==> approvals_view(self.pending@)[j].0 != id@,
                None => forall|j: int| 0 <= j < self.pending@.len() ==> approvals_view(self.pending@)[j].0 != id@,
            },
    {
        let mut i: usize = 0;
        while i < self.pending.len()
            invariant
                i <= self.pending@.len(),
                forall|j: int| 0 <= j < i ==> approvals_view(self.pending@)[j].0 != id@,
            decreases self.pending@.len() - i,
        {
            if str_eq(self.pending[i].0.as_str(), id) {
                return Some(i);
            }
            i = i + 1;
        }
        None
    }

    /// Holds a request under an approval id, replacing what waited under it.
    pub fn insert(&mut self, id: String, approval: PendingApproval)
        ensures
            final(self).waiting(id@) == Some(approval),
            forall|k: Seq<char>| k != id@ ==> final(self).waiting(k) == old(self).waiting(k),
    {
        proof { use_type_invariant(&*self); }
        let ghost before = approvals_view(self.pending@);
        let ghost key = id@;
        match self.position(id.as_str()) {
            Some(i) => {
                let mut v: Vec<(String, PendingApproval)> = Vec::new();
                std::mem::swap(&mut v, &mut self.pending);
                v.set(i, (id, approval));
                self.pending = v;
                proof {
                    assert(approvals_view(self.pending@) =~= before.update(i as int, (key, approval)));
                    assert forall|k: Seq<char>| k != key implies #[trigger] assoc_get(approvals_view(self.pending@), k) == assoc_get(before, k) by {
                        lemma_assoc_update_first(before, i as int, key, approval, k);
                    }
                    lemma_assoc_update_first(before, i as int, key, approval, key);
                }
            },
            None => {
                let mut v: Vec<(String, PendingApproval)> = Vec::new();
                std::mem::swap(&mut v, &mut self.pending);
                v.push((id, approval));
                proof {
                    assert forall|a: int, b: int| 0 <= a < b < v@.len() implies v@[a].0@ != v@[b].0@ by {
                        if b == v@.len() - 1 {
                            assert(before[a].0 == v@[a].0@);
                        }
                    }
                }
                self.pending = v;
                proof {
                    assert(approvals_view(self.pending@) =~= before.push((key, approval)));
                    assert forall|k: Seq<char>| k != key implies #[trigger] assoc_get(approvals_view(self.pending@), k) == assoc_get(before, k) by {
                        lemma_assoc_push_new(before, key, approval, k);
                    }
                    lemma_assoc_push_new(before, key, approval, key);
                }
            },
        }
    }

    /// Holds a request under a fresh random approval id, and returns the id.
    pub fn request_approval(&mut self, approval: PendingApproval) -> (id: String)
        ensures
            id@.len() == 36,
            final(self).waiting(id@) == Some(approval),
            forall|k: Seq<char>| k != id@ ==> final(self).waiting(k) == old(self).waiting(k),
    {
        let id = new_approval_id();
        let key = owned(id.as_str());
        self.insert(key, approval);
        id
    }

    /// Answers an approval. The request waiting under the id leaves the
    /// book whatever the decision; "unknown approval id" when none waits,
    /// "denied" unless the decision, lowercased, is "allow" or "approve",
    /// and else the request to carry out.
    pub fn respond(&mut self, approval_id: &str, decision: &str) -> (r: Result<PendingApproval, String>)
        ensures
            final(self).waiting(approval_id@) is None,
            old(self).waiting(approval_id@) is None ==> (r matches Err(e) && e@ == "unknown approval id"@),
            old(self).waiting(approval_id@) matches Some(p) ==> (
                if approves(lowercase_of(decision@)) { r == Ok::<PendingApproval, String>(p) } else { r matches Err(e) && e@ == "denied"@ }),
            forall|k: Seq<char>| k != approval_id@ ==> final(self).waiting(k) == old(self).waiting(k),
    {
        let lower = to_lowercase(decision);
        self.respond_lowercased(approval_id, lower.as_str())
    }

    /// Answers an approval with a decision already lowercased: as `respond`,
    /// approving exactly when the decision is "allow" or "approve".
    pub fn respond_lowercased(&mut self, approval_id: &str, decision_lower: &str) -> (r: Result<PendingApproval, String>)
        ensures
            final(self).waiting(approval_id@) is None,
            old(self).waiting(approval_id@) is None ==> (r matches Err(e) && e@ == "unknown approval id"@),
            old(self).waiting(approval_id@) matches Some(p) ==> (
                if approves(decision_lower@) { r == Ok::<PendingApproval, String>(p) } else { r matches Err(e) && e@ == "denied"@ }),
            forall|k: Seq<char>| k != approval_id@ ==> final(self).waiting(k) == old(self).waiting(k),
    {
        proof { use_type_invariant(&*self); }
        let allow = str_eq(decision_lower, "allow") || str_eq(decision_lower, "approve");
        let ghost before = approvals_view(self.pending@);
        match self.position(approval_id) {
            None => {
                proof { lemma_assoc_get_absent(before, approval_id@); }
                Err(owned("unknown approval id"))
            },
            Some(i) => {
                proof { lemma_assoc_get_first(before, i as int, approval_id@); }
                let mut v: Vec<(String, PendingApproval)> = Vec::new();
                std::mem::swap(&mut v, &mut self.pending);
                let (_, pending) = v.remove(i);
                self.pending = v;
                proof {
                    assert(approvals_view(self.pending@) =~= before.remove(i as int));
                    assert forall|j: int| 0 <= j < approvals_view(self.pending@).len() implies approvals_view(self.pending@)[j].0 != approval_id@ by {
                        if j >= i {
                            assert(approvals_view(self.pending@)[j] == before[j + 1]);
                            assert(old(self).pending@[i as int].0@ != old(self).pending@[j + 1].0@);
                        }
                    }
                    lemma_assoc_get_absent(approvals_view(self.pending@), approval_id@);
                    assert forall|k: Seq<char>| k != approval_id@ implies #[trigger] assoc_get(approvals_view(self.pending@), k) == assoc_get(before, k) by {
                        lemma_remove_other(before, i as int, k);
                    }
                }
                if allow {
                    Ok(pending)
                } else {
                    Err(owned("denied"))
                }
            },
        }
    }
}

/// Removing an entry keeps what every other key finds.
proof fn lemma_remove_other<V>(s: Seq<(Seq<char>, V)>, i: int, k: Seq<char>)
    requires
        0 <= i < s.len(),
        s[i].0 != k,
    ensures
        assoc_get(s.remove(i), k) == assoc_get(s, k),
    decreases i,
{
    let u = s.remove(i);
    let t = s.subrange(1, s.len() as int);
    if i == 0 {
        assert(u =~= t);
    } else {
        lemma_remove_other(t, i - 1, k);
        assert(u.subrange(1, u.len() as int) =~= t.remove(i - 1));
        assert(u[0] == s[0]);
    }
}

/// The topics after a subscription: each requested topic lowercased.
pub open spec fn lowercased(topics: Seq<String>) -> Seq<Seq<char>> {
    Seq::new(topics.len(), |i: int| lowercase_of(topics[i]@))
}

/// Replaces a connection's subscriptions with the requested topics,
/// lowercased; more topics than the connection may hold are refused with
/// "subscription limit exceeded".
pub fn subscribe(topics: &Vec<String>, max_subscriptions: usize) -> (r: Result<Vec<String>, String>)
    ensures
        topics@.len() > max_subscriptions ==> (r matches Err(e) && e@ == "subscription limit exceeded"@),
        topics@.len() <= max_subscriptions ==> (r matches Ok(v) && strings_view(v@) == lowercased(topics@)),
{
    if topics.len() > max_subscriptions {
        return Err(owned("subscription limit exceeded"));
    }
    let mut out: Vec<String> = Vec::new();
    let mut i: usize = 0;
    while i < topics.len()
        invariant
            i <= topics@.len(),
            out@.len() == i,
            strings_view(out@) == lowercased(topics@).subrange(0, i as int),
        decreases topics@.len() - i,
    {
        let t = to_lowercase(topics[i].as_str());
        out.push(t);
        assert(strings_view(out@) =~= lowercased(topics@).subrange(0, i as int + 1));
        i = i + 1;
    }
    assert(lowercased(topics@).subrange(0, topics@.len() as int) =~= lowercased(topics@));
    Ok(out)
}

/// Adds the "logs" topic unless it is there already.
pub fn subscribe_logs(topics: &mut Vec<String>)
    ensures
        (exists|i: int| 0 <= i < old(topics)@.len() && old(topics)@[i]@ == "logs"@) ==> final(topics)@ == old(topics)@,
        !(exists|i: int| 0 <= i < old(topics)@.len() && old(topics)@[i]@ == "logs"@) ==> (
            final(topics)@.len() == old(topics)@.len() + 1
            && final(topics)@.drop_last() == old(topics)@
            && final(topics)@.last()@ == "logs"@),
{
    let mut i: usize = 0;
    while i < topics.len()
        invariant
            i <= topics@.len(),
            topics@ == old(topics)@,
            forall|j: int| 0 <= j < i ==> topics@[j]@ != "logs"@,
        decreases topics@.len() - i,
    {
        if str_eq(topics[i].as_str(), "logs") {
            return;
        }
        i = i + 1;
    }
    topics.push(owned("logs"));
    assert(topics@.drop_last() =~= old(topics)@);
}

/// Whether a summary matches a query, as `query_matches` does for assets.
pub open spec fn summary_matches(q: AssetQuery, e: AutomationAssetSummary) -> bool {
    &&& (q.url matches Some(u) ==> contains_seq(e.url@, u@))
    &&& (q.mime matches Some(m) ==> contains_seq(e.mime@, m@))
    &&& (q.hash matches Some(h) ==> opt_view(e.hash) == Some(h@))
    &&& (q.session_id matches Some(sid) ==> opt_view(e.session_id) == Some(sid@))
    &&& (q.tab_id matches Some(t) ==> opt_view(e.tab_id) == Some(t@))
    &&& (q.status_code matches Some(c) ==> e.status_code == Some(c))
}

/// The summaries that match the query (all of them without one), in order.
pub open spec fn matching_summaries(entries: Seq<AutomationAssetSummary>, q: Option<AssetQuery>) -> Seq<AutomationAssetSummary>
    decreases entries.len(),
{
    if entries.len() == 0 {
        Seq::<AutomationAssetSummary>::empty()
    } else {
        let rest = matching_summaries(entries.drop_last(), q);
        let keep = match q {
            Some(qq) => summary_matches(qq, entries.last()),
            None => true,
        };
        if keep { rest.push(entries.last()) } else { rest }
    }
}

/// How many entries a cache query answers with: 100 unless asked, never
/// more than 500.
pub open spec fn query_limit(limit: Option<usize>) -> int {
    let l = match limit {
        Some(n) => n as int,
        None => 100,
    };
    if l < 500 { l } else { 500 }
}

/// The answer to a cache query: the first matching summaries, up to the limit.
pub open spec fn cache_query_answer(entries: Seq<AutomationAssetSummary>, q: Option<AssetQuery>, limit: Option<usize>) -> Seq<AutomationAssetSummary> {
    let m = matching_summaries(entries, q);
    if m.len() <= query_limit(limit) { m } else { m.subrange(0, query_limit(limit)) }
}

fn clone_summary(e: &AutomationAssetSummary) -> (r: AutomationAssetSummary)
    ensures
        r == *e,
{
    AutomationAssetSummary {
        asset_id: e.asset_id.clone(),
        url: e.url.clone(),
        status_code: e.status_code,
        mime: e.mime.clone(),
        size_bytes: e.size_bytes,
        hash: clone_opt(&e.hash),
        created_at: e.created_at.clone(),
        session_id: clone_opt(&e.session_id),
        tab_id: clone_opt(&e.tab_id),
    }
}

fn summary_matches_exec(q: &AssetQuery, e: &AutomationAssetSummary) -> (r: bool)
    ensures
        r == summary_matches(*q, *e),
{
    if let Some(u) = &q.url {
        if !text_contains(&e.url, u) {
            return false;
        }
    }
    if let Some(m) = &q.mime {
        if !text_contains(&e.mime, m) {
            return false;
        }
    }
    if let Some(h) = &q.hash {
        if !opt_eq(&e.hash, h) {
            return false;
        }
    }
    if let Some(sid) = &q.session_id {
        if !opt_eq(&e.session_id, sid) {
            return false;
        }
    }
    if let Some(t) = &q.tab_id {
        if !opt_eq(&e.tab_id, t) {
            return false;
        }
    }
    if let Some(c) = q.status_code {
        match e.status_code {
            Some(x) => {
                if x != c {
                    return false;
                }
            },
            None => {
                return false;
            },
        }
    }
    true
}

/// Answers a cache query over the snapshot's summaries.
pub fn query_cache_entries(entries: &Vec<AutomationAssetSummary>, query: &Option<AssetQuery>, limit: Option<usize>) -> (r: Vec<AutomationAssetSummary>)
    ensures
        r@ == cache_query_answer(entries@, *query, limit),
{
    let mut out: Vec<AutomationAssetSummary> = Vec::new();
    let mut i: usize = 0;
    while i < entries.len()
        invariant
            i <= entries@.len(),
            out@ == matching_summaries(entries@.subrange(0, i as int), *query),
        decreases entries@.len() - i,
    {
        let keep = match query {
            Some(q) => summary_matches_exec(q, &entries[i]),
            None => true,
        };
        proof {
            let pre = entries@.subrange(0, i as int + 1);
            assert(pre.drop_last() =~= entries@.subrange(0, i as int));
            assert(pre.last() == entries@[i as int]);
        }
        if keep {
            out.push(clone_summary(&entries[i]));
        }
        i = i + 1;
    }
    assert(entries@.subrange(0, entries@.len() as int) =~= entries@);
    let requested: usize = match limit {
        Some(n) => n,
        None => 100,
    };
    let cap: usize = if requested < 500 { requested } else { 500 };
    out.truncate(cap);
    out
}

/// A tab as the automation server addresses it.
#[derive(Debug, Clone)]
pub struct TabRef {
    pub tab_id: String,
    pub index: usize,
}

/// Which tab a request means: the given index when it is in range (else
/// "tab index out of range"); otherwise the index of the first tab with the
/// given id; otherwise "tab not found".
pub open spec fn tab_index_answer(tabs: Seq<TabRef>, index: Option<usize>, tab_id: Option<Seq<char>>) -> Result<usize, Seq<char>> {
    match index {
        Some(i) => if i < tabs.len() { Ok(i) } else { Err("tab index out of range"@) },
        None => match tab_id {
            Some(id) => if exists|k: int| 0 <= k < tabs.len() && tabs[k].tab_id@ == id {
                Ok(tabs[choose|k: int| 0 <= k < tabs.len() && tabs[k].tab_id@ == id
                    && forall|j: int| 0 <= j < k ==> tabs[j].tab_id@ != id].index)
            } else {
                Err("tab not found"@)
            },
            None => Err("tab not found"@),
        },
    }
}

/// Resolves the tab a request means.
pub fn resolve_tab_index(tabs: &Vec<TabRef>, index: Option<usize>, tab_id: Option<&str>) -> (r: Result<usize, String>)
    ensures
        match r {
            Ok(i) => tab_index_answer(tabs@, index, match tab_id { Some(t) => Some(t@), None => None }) == Ok::<usize, Seq<char>>(i),
            Err(e) => tab_index_answer(tabs@, index, match tab_id { Some(t) => Some(t@), None => None }) == Err::<usize, Seq<char>>(e@),
        },
{
    if let Some(i) = index {
        if i < tabs.len() {
            return Ok(i);
        } else {
            return Err(owned("tab index out of range"));
        }
    }
    if let Some(id) = tab_id {
        let mut k: usize = 0;
        while k < tabs.len()
            invariant
                index is None,
                tab_id == Some(id),
                k <= tabs@.len(),
                forall|j: int| 0 <= j < k ==> tabs@[j].tab_id@ != id@,
            decreases tabs@.len() - k,
        {
            if str_eq(tabs[k].tab_id.as_str(), id) {
                proof {
                    assert(tabs@[k as int].tab_id@ == id@);
                    assert(exists|m: int| 0 <= m < tabs@.len() && tabs@[m].tab_id@ == id@);
                    let w = choose|m: int| 0 <= m < tabs@.len() && tabs@[m].tab_id@ == id@
                        && forall|j: int| 0 <= j < m ==> tabs@[j].tab_id@ != id@;
                    assert(0 <= k < tabs@.len() && tabs@[k as int].tab_id@ == id@
                        && forall|j: int| 0 <= j < k ==> tabs@[j].tab_id@ != id@);
                    if w < k {
                        assert(tabs@[w].tab_id@ != id@);
                    }
                    if k < w {
                        assert(tabs@[k as int].tab_id@ != id@);
                    }
                    assert(w == k);
                }
                return Ok(tabs[k].index);
            }
            k = k + 1;
        }
    }
    Err(owned("tab not found"))
}

/// The kinds of request a client may send.
#[derive(Debug, Clone, Copy, PartialEq, Eq)]
pub enum RequestKind {
    WindowList,
    LogSubscribe,
    TabList,
    Snapshot,
    TabActivate,
    TabNew,
    TabClose,
    TabNavigate,
    TabReload,
    TabStop,
    TabBack,
    TabForward,
    DomQuery,
    Screenshot,
    RenderedText,
    ArticleText,
    CacheStats,
    CacheQuery,
    CacheBody,
    Subscribe,
    TtsControl,
    TtsEnqueue,
    MountAdd,
    MountRemove,
    MountList,
    EvaluateJavascript,
    TerminalExec,
    FsList,
    FsRead,
    FsWrite,
    ApprovalRespond,
    Shutdown,
}

/// Whether a request is let through.
#[derive(Debug, Clone)]
pub enum Admission {
    /// Carry the request out.
    Proceed,
    /// Answer with this error.
    Refused(String),
    /// Hold the request until the user approves this capability.
    NeedsApproval(Capability),
}

/// An admission as plain values.
pub enum AdmissionView {
    Proceed,
    Refused(Seq<char>),
    NeedsApproval(Capability),
}

impl Admission {
    pub open spec fn view(&self) -> AdmissionView {
        match self {
            Admission::Proceed => AdmissionView::Proceed,
            Admission::Refused(e) => AdmissionView::Refused(e@),
            Admission::NeedsApproval(c) => AdmissionView::NeedsApproval(*c),
        }
    }
}

/// The rate-limit key and limit per minute of the requests that have one.
pub open spec fn rate_key(kind: RequestKind) -> Option<(Seq<char>, u32)> {
    match kind {
        RequestKind::TerminalExec => Some(("terminal-exec"@, 30u32)),
        RequestKind::FsWrite => Some(("fs-write"@, 60u32)),
        _ => None,
    }
}

pub open spec fn is_tab_request(kind: RequestKind) -> bool {
    matches!(kind, RequestKind::TabList | RequestKind::TabActivate | RequestKind::TabNew | RequestKind::TabClose
        | RequestKind::TabNavigate | RequestKind::TabReload | RequestKind::TabStop | RequestKind::TabBack | RequestKind::TabForward)
}

pub open spec fn is_cache_request(kind: RequestKind) -> bool {
    matches!(kind, RequestKind::CacheStats | RequestKind::CacheQuery | RequestKind::CacheBody)
}

pub open spec fn is_mount_request(kind: RequestKind) -> bool {
    matches!(kind, RequestKind::MountAdd | RequestKind::MountRemove | RequestKind::MountList)
}

/// A gate's outcome as an admission.
pub open spec fn from_gate(g: Result<(), Seq<char>>) -> AdmissionView {
    match g {
        Ok(()) => AdmissionView::Proceed,
        Err(e) => AdmissionView::Refused(e),
    }
}

/// A capability that may wait for approval: allowed, held back when the
/// policy asks, refused when it denies.
pub open spec fn approval_gate(policy: PermissionPolicy, c: Capability) -> AdmissionView {
    match policy.spec_decision_for(c) {
        PermissionDecision::Allow => AdmissionView::Proceed,
        PermissionDecision::Ask => AdmissionView::NeedsApproval(c),
        PermissionDecision::Deny => AdmissionView::Refused("capability denied"@),
    }
}

/// Whether a request is let through, once its rate limit (if any) has
/// passed or not: the tab, cache and mount requests go through their API's
/// gate; terminal commands, file listing and reading, and file writing may
/// wait for approval; text extraction and speech are not available; the
/// rest proceed.
pub open spec fn admission(kind: RequestKind, expose_tab_api: bool, expose_cache_api: bool, policy: PermissionPolicy, rate_passed: bool) -> AdmissionView {
    if !rate_passed {
        AdmissionView::Refused("rate-limit"@)
    } else if is_tab_request(kind) {
        from_gate(tab_api_gate(expose_tab_api, policy))
    } else if is_cache_request(kind) {
        from_gate(cache_api_gate(expose_cache_api, policy))
    } else if is_mount_request(kind) {
        from_gate(mount_api_gate(policy))
    } else {
        match kind {
            RequestKind::TerminalExec => approval_gate(policy, Capability::TerminalExec),
            RequestKind::FsList | RequestKind::FsRead => approval_gate(policy, Capability::FsRead),
            RequestKind::FsWrite => approval_gate(policy, Capability::FsWrite),
            RequestKind::RenderedText => AdmissionView::Refused("rendered text not implemented"@),
            RequestKind::ArticleText => AdmissionView::Refused("article text not implemented"@),
            RequestKind::TtsControl => AdmissionView::Refused("tts control not implemented"@),
            RequestKind::TtsEnqueue => AdmissionView::Refused("tts enqueue not implemented"@),
            _ => AdmissionView::Proceed,
        }
    }
}

fn gate_admission(g: Result<(), String>) -> (r: Admission)
    ensures
        r.view() == from_gate(gate_view(g)),
{
    match g {
        Ok(()) => Admission::Proceed,
        Err(e) => Admission::Refused(e),
    }
}

fn approval_admission(policy: &PermissionPolicy, c: Capability) -> (r: Admission)
    ensures
        r.view() == approval_gate(*policy, c),
{
    match policy.decision_for(&c) {
        PermissionDecision::Allow => Admission::Proceed,
        PermissionDecision::Ask => Admission::NeedsApproval(c),
        PermissionDecision::Deny => Admission::Refused(owned("capability denied")),
    }
}

/// Decides whether a request is let through. Terminal commands and file
/// writes first count against their rate limit at time `now_ms`.
pub fn admit_request(
    kind: RequestKind,
    expose_tab_api: bool,
    expose_cache_api: bool,
    policy: &PermissionPolicy,
    limiter: &mut RateLimiter,
    now_ms: u64,
) -> (r: Admission)
    ensures
        match rate_key(kind) {
            Some((key, max)) => {
                &&& final(limiter).window(key) == Some(rate_step(old(limiter).window(key), now_ms))
                &&& forall|k: Seq<char>| k != key ==> final(limiter).window(k) == old(limiter).window(k)
                &&& r.view() == admission(kind, expose_tab_api, expose_cache_api, *policy,
                        rate_step(old(limiter).window(key), now_ms).1 <= effective_limit(max))
            },
            None => {
                &&& forall|k: Seq<char>| final(limiter).window(k) == old(limiter).window(k)
                &&& r.view() == admission(kind, expose_tab_api, expose_cache_api, *policy, true)
            },
        },
{
    match kind {
        RequestKind::TerminalExec => {
            let lim = limiter.check("terminal-exec", now_ms, 30);
            if lim.is_err() {
                return Admission::Refused(owned("rate-limit"));
            }
            approval_admission(policy, Capability::TerminalExec)
        },
        RequestKind::FsWrite => {
            let lim = limiter.check("fs-write", now_ms, 60);
            if lim.is_err() {
                return Admission::Refused(owned("rate-limit"));
            }
            approval_admission(policy, Capability::FsWrite)
        },
        RequestKind::FsList | RequestKind::FsRead => approval_admission(policy, Capability::FsRead),
        RequestKind::TabList | RequestKind::TabActivate | RequestKind::TabNew | RequestKind::TabClose
        | RequestKind::TabNavigate | RequestKind::TabReload | RequestKind::TabStop | RequestKind::TabBack
        | RequestKind::TabForward => gate_admission(ensure_tab_api(expose_tab_api, policy)),
        RequestKind::CacheStats | RequestKind::CacheQuery | RequestKind::CacheBody =>
            gate_admission(ensure_cache_api(expose_cache_api, policy)),
        RequestKind::MountAdd | RequestKind::MountRemove | RequestKind::MountList =>
            gate_admission(ensure_mount_api(policy)),
        RequestKind::RenderedText => Admission::Refused(owned("rendered text not implemented")),
        RequestKind::ArticleText => Admission::Refused(owned("article text not implemented")),
        RequestKind::TtsControl => Admission::Refused(owned("tts control not implemented")),
        RequestKind::TtsEnqueue => Admission::Refused(owned("tts enqueue not implemented")),
        _ => Admission::Proceed,
    }
}


/// The capability a request needs the user's approval for, if any.
pub open spec fn approval_capability(kind: RequestKind) -> Option<Capability> {
    match kind {
        RequestKind::TerminalExec => Some(Capability::TerminalExec),
        RequestKind::FsList | RequestKind::FsRead => Some(Capability::FsRead),
        RequestKind::FsWrite => Some(Capability::FsWrite),
        _ => None,
    }
}

/// Where the policy asks, a terminal command or file access (within its
/// rate limit) is held back for approval; where it denies, it is refused
/// with "capability denied"; where it allows, it proceeds.
pub proof fn law_approval_follows_policy(kind: RequestKind, tab: bool, cache: bool, policy: PermissionPolicy)
    requires
        approval_capability(kind) is Some,
    ensures
        ({
            let c = approval_capability(kind).unwrap();
            let a = admission(kind, tab, cache, policy, true);
            &&& policy.spec_decision_for(c) == PermissionDecision::Ask ==> a == AdmissionView::NeedsApproval(c)
            &&& policy.spec_decision_for(c) == PermissionDecision::Deny ==> a == AdmissionView::Refused("capability denied"@)
            &&& policy.spec_decision_for(c) == PermissionDecision::Allow ==> a == AdmissionView::Proceed
        }),
{
}

/// A request over its rate limit is refused, whatever the policy.
pub proof fn law_rate_limit_refuses(kind: RequestKind, tab: bool, cache: bool, policy: PermissionPolicy)
    ensures
        admission(kind, tab, cache, policy, false) == AdmissionView::Refused("rate-limit"@),
{
}

/// With the tab API hidden, every tab request is refused with "tab api
/// disabled"; with the cache API hidden, every cache request with "cache
/// api disabled".
pub proof fn law_hidden_apis_refuse(kind: RequestKind, policy: PermissionPolicy)
    ensures
        is_tab_request(kind) ==> admission(kind, false, false, policy, true) == AdmissionView::Refused("tab api disabled"@),
        is_cache_request(kind) ==> admission(kind, false, false, policy, true) == AdmissionView::Refused("cache api disabled"@),
{
}


/// The snapshot shows at most this many cache entries.
pub const SNAPSHOT_CACHE_ENTRIES: usize = 512;

/// The summaries of the first recorded assets, as many as the snapshot shows.
pub fn snapshot_cache_entries(entries: &Vec<AssetMetadata>) -> (r: Vec<AutomationAssetSummary>)
    ensures
        r@.len() == (if entries@.len() < SNAPSHOT_CACHE_ENTRIES { entries@.len() } else { SNAPSHOT_CACHE_ENTRIES as nat }),
        forall|i: int| 0 <= i < r@.len() ==> #[trigger] r@[i] == summary_of(entries@[i]),
{
    let mut out: Vec<AutomationAssetSummary> = Vec::new();
    let mut i: usize = 0;
    while i < entries.len() && i < SNAPSHOT_CACHE_ENTRIES
        invariant
            i <= entries@.len(),
            i <= SNAPSHOT_CACHE_ENTRIES,
            out@.len() == i,
            forall|k: int| 0 <= k < i ==> #[trigger] out@[k] == summary_of(entries@[k]),
        decreases entries@.len() - i,
    {
        out.push(asset_summary_from_metadata(&entries[i]));
        i = i + 1;
    }
    out
}

/// The position of the active tab among the window's tabs: that of the
/// first tab with its id, else 0 (also without an active tab).
pub open spec fn active_position(tab_ids: Seq<u64>, active: Option<u64>) -> int {
    match active {
        Some(id) => if exists|k: int| 0 <= k < tab_ids.len() && tab_ids[k] == id {
            choose|k: int| 0 <= k < tab_ids.len() && tab_ids[k] == id && forall|j: int| 0 <= j < k ==> tab_ids[j] != id
        } else {
            0
        },
        None => 0,
    }
}

/// The position of the active tab among the window's tabs.
pub fn active_tab_index(tab_ids: &Vec<u64>, active: Option<u64>) -> (r: usize)
    ensures
        r as int == active_position(tab_ids@, active),
{
    match active {
        None => 0,
        Some(id) => {
            let mut k: usize = 0;
            while k < tab_ids.len()
                invariant
                    k <= tab_ids@.len(),
                    active == Some(id),
                    forall|j: int| 0 <= j < k ==> tab_ids@[j] != id,
                decreases tab_ids@.len() - k,
            {
                if tab_ids[k] == id {
                    proof {
                        assert(tab_ids@[k as int] == id);
                        let w = choose|m: int| 0 <= m < tab_ids@.len() && tab_ids@[m] == id && forall|j: int| 0 <= j < m ==> tab_ids@[j] != id;
                        if w < k { assert(tab_ids@[w] != id); }
                        if k < w { assert(tab_ids@[k as int] != id); }
                    }
                    return k;
                }
                k = k + 1;
            }
            0
        },
    }
}

/// The script that reads the HTML of the first element matching a selector,
/// or null.
pub open spec fn dom_query_script_text(selector: Seq<char>) -> Seq<char> {
    "document.querySelector('"@ + selector + "') ? document.querySelector('"@ + selector + "').outerHTML : null"@
}

/// The script that reads the HTML of the first element matching a selector.
pub fn dom_query_script(selector: &str) -> (r: String)
    ensures
        r@ == dom_query_script_text(selector@),
{
    let a = chars_of("document.querySelector('");
    let s = chars_of(selector);
    let b = chars_of("') ? document.querySelector('");
    let c = chars_of("').outerHTML : null");
    let p1 = concat_chars(a.as_slice(), s.as_slice());
    let p2 = concat_chars(p1.as_slice(), b.as_slice());
    let p3 = concat_chars(p2.as_slice(), s.as_slice());
    let p4 = concat_chars(p3.as_slice(), c.as_slice());
    string_of(p4.as_slice())
}

/// Closing the tab at `index` of a window: nothing happens for an index
/// past the end; otherwise the tab leaves, an active position past the new
/// end moves to the last tab (to 0 when none is left), and the event log
/// gets "automation close tab".
pub fn close_tab_at<T>(tabs: &mut Vec<T>, active: &mut usize, index: usize, event_log: &mut Vec<String>) -> (closed: bool)
    ensures
        closed == (index < old(tabs)@.len()),
        closed ==> final(tabs)@ == old(tabs)@.remove(index as int),
        !closed ==> final(tabs)@ == old(tabs)@,
        closed ==> *final(active) == (if *old(active) >= final(tabs)@.len() {
            if final(tabs)@.len() == 0 { 0 } else { (final(tabs)@.len() - 1) as usize }
        } else {
            *old(active)
        }),
        !closed ==> *final(active) == *old(active),
        strings_view(final(event_log)@) == (if closed {
            strings_view(old(event_log)@).push("automation close tab"@)
        } else {
            strings_view(old(event_log)@)
        }),
{
    if index >= tabs.len() {
        return false;
    }
    tabs.remove(index);
    if *active >= tabs.len() {
        *active = if tabs.len() == 0 { 0 } else { tabs.len() - 1 };
    }
    event_log.push(owned("automation close tab"));
    assert(strings_view(event_log@) =~= strings_view(old(event_log)@).push("automation close tab"@));
    true
}

/// The shell command an automation speech control names: "pause",
/// "resume" or "stop"; any other action is "invalid tts action".
pub fn tts_control_command(action: &str) -> (r: Result<ShellCommand, String>)
    ensures
        action@ == "pause"@ ==> r matches Ok(ShellCommand::TtsPause),
        action@ == "resume"@ ==> r matches Ok(ShellCommand::TtsResume),
        action@ == "stop"@ ==> r matches Ok(ShellCommand::TtsStop),
        action@ != "pause"@ && action@ != "resume"@ && action@ != "stop"@ ==> (r matches Err(e) && e@ == "invalid tts action"@),
{
    proof {
        reveal_strlit("pause");
        reveal_strlit("resume");
        reveal_strlit("stop");
        assert("pause"@ != "resume"@ && "pause"@ != "stop"@ && "resume"@ != "stop"@) by {
            assert("pause"@[0] != "resume"@[0] && "pause"@[0] != "stop"@[0] && "resume"@[0] != "stop"@[0]);
        }
    }
    if str_eq(action, "pause") {
        Ok(ShellCommand::TtsPause)
    } else if str_eq(action, "resume") {
        Ok(ShellCommand::TtsResume)
    } else if str_eq(action, "stop") {
        Ok(ShellCommand::TtsStop)
    } else {
        Err(owned("invalid tts action"))
    }
}

/// The token of an `Authorization: Bearer <token>` header.
pub open spec fn bearer_token(header: Option<Seq<char>>) -> Option<Seq<char>> {
    match header {
        Some(h) => if has_prefix(h, "Bearer "@) { Some(h.subrange(7, h.len() as int)) } else { None },
        None => None,
    }
}

/// Whether a connection may open: always when no authentication is
/// required; otherwise the token it presents (the header's, else the
/// query's) must equal the configured one, both being absent counting as
/// equal.
pub open spec fn connection_allowed(require_auth: bool, header: Option<Seq<char>>, query_token: Option<Seq<char>>, auth_token: Option<Seq<char>>) -> bool {
    !require_auth || (match bearer_token(header) { Some(t) => Some(t), None => query_token }) == auth_token
}

fn opt_str_eq(a: &Option<String>, b: &Option<String>) -> (r: bool)
    ensures
        r == (opt_view(*a) == opt_view(*b)),
{
    match (a, b) {
        (Some(x), Some(y)) => str_eq(x.as_str(), y.as_str()),
        (None, None) => true,
        _ => false,
    }
}

/// Whether a connection may open, from its `Authorization` header, its
/// `token` query parameter and the configuration.
pub fn authorize_connection(require_auth: bool, header: Option<&str>, query_token: &Option<String>, auth_token: &Option<String>) -> (r: bool)
    ensures
        r == connection_allowed(require_auth, match header { Some(h) => Some(h@), None => None }, opt_view(*query_token), opt_view(*auth_token)),
{
    if !require_auth {
        return true;
    }
    let presented: Option<String> = match header {
        Some(h) => {
            let c = chars_of(h);
            if starts_with_str(c.as_slice(), "Bearer ") {
                proof { reveal_strlit("Bearer "); }
                assert("Bearer "@.len() == 7);
                let rest = crate::text::slice_chars(c.as_slice(), 7, c.len());
                Some(string_of(rest.as_slice()))
            } else {
                match query_token {
                    Some(q) => Some(q.clone()),
                    None => None,
                }
            }
        },
        None => match query_token {
            Some(q) => Some(q.clone()),
            None => None,
        },
    };
    opt_str_eq(&presented, auth_token)
}

/// A fresh approval id from `uuid::Uuid::new_v4().to_string()`: random,
/// written in the hyphenated form of 36 characters.
#[verifier::external_body]
fn new_approval_id() -> (r: String)
    ensures
        r@.len() == 36,
{
    uuid::Uuid::new_v4().to_string()
}

} // verus!

