//! How the shell's state follows what the engine reports: the ledger of
//! visits that each committed navigation updates, the bounded network log,
//! the notice for a requested download, and the back-off that schedules an
//! engine restart after a crash.

use vstd::prelude::*;
use std::collections::VecDeque;
use vstd::arithmetic::power2::{pow2, lemma2_to64};
use crate::text::{str_eq, owned, chars_of, concat_chars, string_of};
use crate::config::strings_view;
use crate::engine::{WindowDisposition, DialogKind, SecurityWarningKind, EngineStatus, RenderHealth, engine_status_text};
use crate::navigation::{normalize_url_input, normalized_url};
use crate::urls::opt_view;

verus! {

/// The most network requests the shell keeps; the oldest leaves first.
pub const NETWORK_LOG_CAPACITY: usize = 500;

/// What the shell remembers of the pages it has shown: every committed
/// address in order, the last one, how often each address was reached, how
/// many arrivals there were and how many of them came back to an address
/// already counted.
pub struct VisitLedger {
    pub history: Vec<String>,
    pub last_committed_url: Option<String>,
    pub visit_counts: Vec<(String, u32)>,
    pub visit_total: u64,
    pub revisit_total: u64,
}

/// The ledger as values: the count of an address missing from `counts` is
/// zero.
pub struct LedgerView {
    pub history: Seq<Seq<char>>,
    pub last_committed: Option<Seq<char>>,
    pub counts: Map<Seq<char>, nat>,
    pub total: nat,
    pub revisits: nat,
}

/// No address is counted in two places.
pub open spec fn counts_unique(s: Seq<(String, u32)>) -> bool {
    forall|i: int, j: int| 0 <= i < j < s.len() ==> s[i].0@ != s[j].0@
}

/// The counts as a map from address to count.
pub open spec fn counts_map(s: Seq<(String, u32)>) -> Map<Seq<char>, nat> {
    Map::new(
        |k: Seq<char>| exists|i: int| 0 <= i < s.len() && s[i].0@ == k,
        |k: Seq<char>| s[choose|i: int| 0 <= i < s.len() && s[i].0@ == k].1 as nat,
    )
}

impl View for VisitLedger {
    type V = LedgerView;

    open spec fn view(&self) -> LedgerView {
        LedgerView {
            history: strings_view(self.history@),
            last_committed: opt_view(self.last_committed_url),
            counts: counts_map(self.visit_counts@),
            total: self.visit_total as nat,
            revisits: self.revisit_total as nat,
        }
    }
}

/// How often an address was reached.
pub open spec fn visits_of(counts: Map<Seq<char>, nat>, url: Seq<char>) -> nat {
    if counts.contains_key(url) { counts[url] } else { 0 }
}

/// An address arrives as a new page unless it is the page last committed.
pub open spec fn is_new_page(v: LedgerView, url: Seq<char>) -> bool {
    v.last_committed != Some(url)
}

/// The ledger after the engine reports the page at `url`: a new page is
/// appended to the history, becomes the last page, and counts one more
/// visit, and a revisit when the address had been counted before; the page
/// last committed, reported again, changes nothing.
pub open spec fn ledger_after(v: LedgerView, url: Seq<char>) -> LedgerView {
    if !is_new_page(v, url) {
        v
    } else {
        let seen = visits_of(v.counts, url);
        LedgerView {
            history: v.history.push(url),
            last_committed: Some(url),
            counts: v.counts.insert(url, seen + 1),
            total: v.total + 1,
            revisits: if seen >= 1 { v.revisits + 1 } else { v.revisits },
        }
    }
}

/// The ledger of a shell that has shown nothing yet.
pub open spec fn empty_ledger() -> LedgerView {
    LedgerView {
        history: Seq::empty(),
        last_committed: None,
        counts: Map::empty(),
        total: 0,
        revisits: 0,
    }
}

proof fn lemma_counts_lookup(s: Seq<(String, u32)>, j: int)
    requires
        counts_unique(s),
        0 <= j < s.len(),
    ensures
        counts_map(s).contains_key(s[j].0@),
        counts_map(s)[s[j].0@] == s[j].1 as nat,
{
    let k = s[j].0@;
    assert(exists|i: int| 0 <= i < s.len() && s[i].0@ == k);
    let c = choose|i: int| 0 <= i < s.len() && s[i].0@ == k;
    if c != j {
        if c < j {
            assert(s[c].0@ != s[j].0@);
        } else {
            assert(s[j].0@ != s[c].0@);
        }
    }
}

proof fn lemma_counts_set(s: Seq<(String, u32)>, j: int, key: String, n: u32)
    requires
        counts_unique(s),
        0 <= j < s.len(),
        key@ == s[j].0@,
    ensures
        counts_unique(s.update(j, (key, n))),
        counts_map(s.update(j, (key, n))) == counts_map(s).insert(key@, n as nat),
{
    let t = s.update(j, (key, n));
    assert(counts_unique(t)) by {
        assert forall|a: int, b: int| 0 <= a < b < t.len() implies t[a].0@ != t[b].0@ by {
            assert(s[a].0@ != s[b].0@);
        }
    }
    let m = counts_map(s).insert(key@, n as nat);
    assert forall|k: Seq<char>| #[trigger] counts_map(t).contains_key(k) == m.contains_key(k) by {
        if m.contains_key(k) {
            if k == key@ {
                assert(t[j].0@ == k);
            } else {
                let i = choose|i: int| 0 <= i < s.len() && s[i].0@ == k;
                assert(t[i].0@ == k);
            }
        }
        if counts_map(t).contains_key(k) {
            let i = choose|i: int| 0 <= i < t.len() && t[i].0@ == k;
            if i != j {
                assert(s[i].0@ == k);
            }
        }
    }
    assert forall|k: Seq<char>| #[trigger] counts_map(t).contains_key(k) implies counts_map(t)[k] == m[k] by {
        let i = choose|i: int| 0 <= i < t.len() && t[i].0@ == k;
        lemma_counts_lookup(t, i);
        if i != j {
            assert(s[i] == t[i]);
            lemma_counts_lookup(s, i);
            assert(k != key@) by {
                if i < j {
                    assert(t[i].0@ != t[j].0@);
                } else {
                    assert(t[j].0@ != t[i].0@);
                }
            }
        }
    }
    assert(counts_map(t) =~= m);
}

proof fn lemma_counts_push(s: Seq<(String, u32)>, key: String, n: u32)
    requires
        counts_unique(s),
        forall|i: int| 0 <= i < s.len() ==> s[i].0@ != key@,
    ensures
        counts_unique(s.push((key, n))),
        counts_map(s.push((key, n))) == counts_map(s).insert(key@, n as nat),
{
    let t = s.push((key, n));
    assert(counts_unique(t)) by {
        assert forall|a: int, b: int| 0 <= a < b < t.len() implies t[a].0@ != t[b].0@ by {
            if b < s.len() {
                assert(s[a].0@ != s[b].0@);
            }
        }
    }
    let m = counts_map(s).insert(key@, n as nat);
    assert forall|k: Seq<char>| #[trigger] counts_map(t).contains_key(k) == m.contains_key(k) by {
        if m.contains_key(k) {
            if k == key@ {
                assert(t[s.len() as int].0@ == k);
            } else {
                let i = choose|i: int| 0 <= i < s.len() && s[i].0@ == k;
                assert(t[i].0@ == k);
            }
        }
        if counts_map(t).contains_key(k) {
            let i = choose|i: int| 0 <= i < t.len() && t[i].0@ == k;
            if i < s.len() {
                assert(s[i].0@ == k);
            }
        }
    }
    assert forall|k: Seq<char>| #[trigger] counts_map(t).contains_key(k) implies counts_map(t)[k] == m[k] by {
        let i = choose|i: int| 0 <= i < t.len() && t[i].0@ == k;
        lemma_counts_lookup(t, i);
        if i < s.len() {
            assert(s[i] == t[i]);
            lemma_counts_lookup(s, i);
        }
    }
    assert(counts_map(t) =~= m);
}

impl VisitLedger {
    /// No address is counted twice.
    pub open spec fn well_formed(&self) -> bool {
        counts_unique(self.visit_counts@)
    }

    /// The ledger of a shell that has shown nothing yet.
    pub fn new() -> (r: Self)
        ensures
            r.well_formed(),
            r@ == empty_ledger(),
    {
        let r = VisitLedger {
            history: Vec::new(),
            last_committed_url: None,
            visit_counts: Vec::new(),
            visit_total: 0,
            revisit_total: 0,
        };
        assert(r@.counts =~= Map::<Seq<char>, nat>::empty());
        assert(r@.history =~= Seq::<Seq<char>>::empty());
        r
    }

    /// Takes note of the page the engine reports at `url`, and says whether
    /// it arrived as a new page (the caller then stores the visit).
    pub fn commit_navigation(&mut self, url: &str) -> (committed: bool)
        requires
            old(self).well_formed(),
            is_new_page(old(self)@, url@) ==> {
                &&& old(self).visit_total < u64::MAX
                &&& visits_of(old(self)@.counts, url@) < u32::MAX
                &&& visits_of(old(self)@.counts, url@) >= 1 ==> old(self).revisit_total < u64::MAX
            },
        ensures
            final(self).well_formed(),
            committed == is_new_page(old(self)@, url@),
            final(self)@ == ledger_after(old(self)@, url@),
    {
        let is_new = match &self.last_committed_url {
            Some(last) => !str_eq(last.as_str(), url),
            None => true,
        };
        if !is_new {
            return false;
        }
        let ghost old_counts = self.visit_counts@;
        let mut found: Option<usize> = None;
        let mut i: usize = 0;
        while found.is_none() && i < self.visit_counts.len()
            invariant
                i <= self.visit_counts@.len(),
                self.visit_counts@ == old_counts,
                found matches Some(j) ==> j < old_counts.len() && old_counts[j as int].0@ == url@,
                found is None ==> forall|j: int| 0 <= j < i ==> old_counts[j].0@ != url@,
            decreases self.visit_counts@.len() - i + (if found is None { 1int } else { 0int }),
        {
            if str_eq(self.visit_counts[i].0.as_str(), url) {
                found = Some(i);
            } else {
                i = i + 1;
            }
        }
        assert(found matches Some(j) ==> j < old_counts.len() && old_counts[j as int].0@ == url@);
        assert(found is None ==> forall|j: int| 0 <= j < old_counts.len() ==> old_counts[j].0@ != url@);
        let seen: u32 = match found {
            Some(j) => self.visit_counts[j].1,
            None => 0,
        };
        proof {
            match found {
                Some(j) => {
                    lemma_counts_lookup(old_counts, j as int);
                }
                None => {}
            }
            assert(seen as nat == visits_of(counts_map(old_counts), url@));
        }
        let next: u32 = seen + 1;
        match found {
            Some(j) => {
                let entry = (owned(url), next);
                let ghost key = entry.0;
                self.visit_counts.set(j, entry);
                proof {
                    lemma_counts_set(old_counts, j as int, key, next);
                }
            }
            None => {
                let entry = (owned(url), next);
                let ghost key = entry.0;
                self.visit_counts.push(entry);
                proof {
                    lemma_counts_push(old_counts, key, next);
                }
            }
        }
        self.visit_total = self.visit_total + 1;
        if next > 1 {
            self.revisit_total = self.revisit_total + 1;
        }
        let ghost old_history = self.history@;
        self.history.push(owned(url));
        assert(strings_view(self.history@) =~= strings_view(old_history).push(url@));
        self.last_committed_url = Some(owned(url));
        true
    }
}

/// A ledger as the shell keeps it from its start: the total is the length
/// of the history and the number of distinct addresses plus the revisits, an
/// address's count is how often it occurs in the history, every address
/// counted was reached at least once, and the page last committed ends the
/// history.
pub open spec fn ledger_consistent(v: LedgerView) -> bool {
    &&& v.counts.dom().finite()
    &&& v.total == v.history.len()
    &&& v.total == v.counts.dom().len() + v.revisits
    &&& forall|k: Seq<char>| #[trigger] visits_of(v.counts, k) == v.history.to_multiset().count(k)
    &&& forall|k: Seq<char>| v.counts.contains_key(k) ==> #[trigger] v.counts[k] >= 1
    &&& match v.last_committed {
        Some(u) => v.history.len() > 0 && v.history.last() == u,
        None => v.history.len() == 0,
    }
}

/// A shell that has shown nothing keeps a consistent ledger.
pub proof fn law_empty_ledger_consistent()
    ensures
        ledger_consistent(empty_ledger()),
{
    broadcast use vstd::seq_lib::group_to_multiset_ensures;
    let v = empty_ledger();
    assert(v.counts.dom() =~= Set::<Seq<char>>::empty());
    assert forall|k: Seq<char>| #[trigger] visits_of(v.counts, k) == v.history.to_multiset().count(k) by {
        assert(!v.history.contains(k));
    }
}

/// Whatever page the engine reports, a consistent ledger stays consistent:
/// the visits always add up to the distinct pages plus the revisits, and
/// each page's count to its arrivals in the history.
pub proof fn law_commit_keeps_ledger_consistent(v: LedgerView, url: Seq<char>)
    requires
        ledger_consistent(v),
    ensures
        ledger_consistent(ledger_after(v, url)),
{
    broadcast use vstd::multiset::group_multiset_axioms;
    broadcast use vstd::seq_lib::to_multiset_build;
    if is_new_page(v, url) {
        let w = ledger_after(v, url);
        let seen = visits_of(v.counts, url);
        assert(w.history.to_multiset() =~= v.history.to_multiset().insert(url));
        assert(w.counts.dom() =~= v.counts.dom().insert(url));
        assert(seen >= 1 <==> v.counts.contains_key(url));
        assert forall|k: Seq<char>| #[trigger] visits_of(w.counts, k) == w.history.to_multiset().count(k) by {
            assert(visits_of(v.counts, k) == v.history.to_multiset().count(k));
        }
        assert forall|k: Seq<char>| w.counts.contains_key(k) implies #[trigger] w.counts[k] >= 1 by {
            if k != url {
                assert(v.counts.contains_key(k));
            }
        }
    }
}

/// The engine reporting the page just committed once more changes nothing:
/// a page counts once per arrival, however often it is reported.
pub proof fn law_recommit_changes_nothing(v: LedgerView, url: Seq<char>)
    ensures
        ledger_after(ledger_after(v, url), url) == ledger_after(v, url),
{
}

/// The network log after one more request: when it is full the oldest
/// entry leaves first.
pub open spec fn network_log_after<T>(log: Seq<T>, item: T) -> Seq<T> {
    if log.len() >= NETWORK_LOG_CAPACITY { log.drop_first().push(item) } else { log.push(item) }
}

/// Adds a request to the network log, dropping the oldest when the log is
/// full.
pub fn record_network_request<T>(log: &mut VecDeque<T>, item: T)
    ensures
        final(log)@ == network_log_after(old(log)@, item),
{
    if log.len() >= NETWORK_LOG_CAPACITY {
        let _ = log.pop_front();
    }
    log.push_back(item);
    proof {
        if old(log)@.len() >= NETWORK_LOG_CAPACITY {
            assert(final(log)@ =~= old(log)@.drop_first().push(item));
        }
    }
}

/// A log that fits stays within its capacity, and the newest request is
/// its last entry.
pub proof fn law_network_log_bounded<T>(log: Seq<T>, item: T)
    requires
        log.len() <= NETWORK_LOG_CAPACITY,
    ensures
        network_log_after(log, item).len() <= NETWORK_LOG_CAPACITY,
        network_log_after(log, item).last() == item,
{
}

/// The notice of a requested download: the address, and where the engine
/// suggests saving it when it does.
pub open spec fn download_notice(url: Seq<char>, suggested_path: Option<Seq<char>>) -> Seq<char> {
    match suggested_path {
        Some(path) => url + seq![' ', '-', '>', ' '] + path,
        None => url,
    }
}

/// Builds the notice of a requested download.
pub fn download_message(url: &str, suggested_path: Option<&str>) -> (r: String)
    ensures
        r@ == download_notice(url@, match suggested_path { Some(p) => Some(p@), None => None }),
{
    match suggested_path {
        Some(path) => {
            let arrow: Vec<char> = vec![' ', '-', '>', ' '];
            let u = chars_of(url);
            let head = concat_chars(u.as_slice(), arrow.as_slice());
            let p = chars_of(path);
            let all = concat_chars(head.as_slice(), p.as_slice());
            let r = string_of(all.as_slice());
            assert(r@ =~= download_notice(url@, Some(path@)));
            r
        }
        None => owned(url),
    }
}

/// What the shell knows of engine crashes: how many there were, and when
/// the restart that follows the last one is due, in milliseconds since the
/// epoch, while one is scheduled.
#[derive(Debug, Clone, Copy, PartialEq, Eq)]
pub struct RestartSchedule {
    pub crash_count: u32,
    pub pending_restart_at: Option<i64>,
}

/// The wait before a restart, in seconds, once `crash_count` crashes were
/// counted: it doubles with each crash, up to 32 seconds.
pub open spec fn restart_backoff_secs(crash_count: u32) -> nat {
    pow2(if crash_count < 5 { crash_count as nat } else { 5 })
}

/// The schedule after a crash is counted at time `now`, and the wait it
/// chose; while a restart is already scheduled nothing changes.
pub open spec fn schedule_after(s: RestartSchedule, now: i64) -> (RestartSchedule, Option<nat>) {
    if s.pending_restart_at is Some {
        (s, None)
    } else {
        let count: u32 = if s.crash_count == u32::MAX { u32::MAX } else { (s.crash_count + 1) as u32 };
        let wait = restart_backoff_secs(count);
        (RestartSchedule { crash_count: count, pending_restart_at: Some((now + wait * 1000) as i64) }, Some(wait))
    }
}

/// The schedule after one look at time `now`, with whether the engine is
/// to restart now: a crash reported since the last restart schedules one,
/// and a scheduled restart that is due happens and leaves the schedule
/// empty.
pub open spec fn recovery_after(s: RestartSchedule, crash_reported: bool, now: i64) -> (RestartSchedule, bool) {
    let s1 = if crash_reported { schedule_after(s, now).0 } else { s };
    if s1.pending_restart_at is Some && now >= s1.pending_restart_at->0 {
        (RestartSchedule { crash_count: s1.crash_count, pending_restart_at: None }, true)
    } else {
        (s1, false)
    }
}

/// A time early enough that the restart after the longest wait is still a
/// time the schedule can hold.
pub open spec fn schedulable(now: i64) -> bool {
    now <= i64::MAX - 32000
}

impl RestartSchedule {
    /// No crash yet, nothing scheduled.
    pub fn new() -> (r: Self)
        ensures
            r.crash_count == 0,
            r.pending_restart_at is None,
    {
        RestartSchedule { crash_count: 0, pending_restart_at: None }
    }

    /// Counts a crash and schedules the restart after the back-off, unless
    /// one is already scheduled; returns the wait in seconds when it
    /// scheduled one.
    pub fn schedule_restart(&mut self, now_ms: i64) -> (r: Option<u64>)
        requires
            schedulable(now_ms),
        ensures
            (*final(self), match r { Some(w) => Some(w as nat), None => None }) == schedule_after(*old(self), now_ms),
    {
        if self.pending_restart_at.is_some() {
            return None;
        }
        self.crash_count = self.crash_count.saturating_add(1);
        let exponent: u32 = if self.crash_count < 5 { self.crash_count } else { 5 };
        let mut backoff: u64 = 1;
        let mut k: u32 = 0;
        proof {
            lemma2_to64();
        }
        while k < exponent
            invariant
                k <= exponent <= 5,
                backoff == pow2(k as nat),
            decreases exponent - k,
        {
            proof {
                lemma2_to64();
            }
            backoff = backoff * 2;
            k = k + 1;
        }
        proof {
            lemma2_to64();
        }
        self.pending_restart_at = Some(now_ms + (backoff as i64) * 1000);
        Some(backoff)
    }

    /// Looks at the schedule at time `now_ms`, after the engine reported a
    /// crash or not, and says whether to restart the engine now.
    pub fn poll_recovery(&mut self, crash_reported: bool, now_ms: i64) -> (restart_now: bool)
        requires
            schedulable(now_ms),
        ensures
            (*final(self), restart_now) == recovery_after(*old(self), crash_reported, now_ms),
    {
        if crash_reported {
            let _ = self.schedule_restart(now_ms);
        }
        match self.pending_restart_at {
            Some(at) => {
                if now_ms >= at {
                    self.pending_restart_at = None;
                    true
                } else {
                    false
                }
            }
            None => false,
        }
    }
}

/// The wait after a crash is at least 2 and at most 32 seconds, and each
/// further crash doubles it until it reaches 32.
pub proof fn law_backoff_doubles_to_cap(crash_count: u32)
    requires
        1 <= crash_count < u32::MAX,
    ensures
        2 <= restart_backoff_secs(crash_count) <= 32,
        restart_backoff_secs((crash_count + 1) as u32) == if 2 * restart_backoff_secs(crash_count) > 32 {
            32
        } else {
            2 * restart_backoff_secs(crash_count)
        },
{
    lemma2_to64();
}

/// A restart never happens before the time it was scheduled for, and a
/// crash reported while a restart is scheduled neither counts again nor
/// moves the restart.
pub proof fn law_restart_not_before_due(s: RestartSchedule, crash_reported: bool, now: i64)
    requires
        s.pending_restart_at is Some,
    ensures
        recovery_after(s, crash_reported, now).1 ==> now >= s.pending_restart_at->0,
        !recovery_after(s, crash_reported, now).1 ==> recovery_after(s, crash_reported, now).0 == s,
{
}

/// Where a page's request for a new window ends up.
#[derive(Debug, Clone, PartialEq, Eq)]
pub enum NewWindowRoute {
    /// The current tab navigates to the normalized address.
    CurrentTab(String),
    /// A new tab opens at the normalized address.
    NewTab(String),
    /// The address could not be navigated to in the current tab.
    NavigationFailed(String),
    /// The address could not be opened in a new tab.
    TabOpenFailed(String),
    /// The configuration blocks new windows.
    Blocked(String),
}

/// Where the configured policy sends a new window: "new-tab" opens a
/// background tab, "same-tab" the current tab, "block" nothing; any other
/// policy keeps what the page asked for.
pub open spec fn window_decision(policy: Seq<char>, requested: WindowDisposition) -> WindowDisposition {
    if policy == "new-tab"@ {
        WindowDisposition::BackgroundTab
    } else if policy == "same-tab"@ {
        WindowDisposition::ForegroundTab
    } else if policy == "block"@ {
        WindowDisposition::Blocked
    } else {
        requested
    }
}

/// Decides where a page's request for a new window at `url` goes under the
/// configured policy.
pub fn route_new_window(policy: &str, requested: WindowDisposition, url: &str) -> (r: NewWindowRoute)
    ensures
        match window_decision(policy@, requested) {
            WindowDisposition::ForegroundTab => match normalized_url(url@) {
                Ok(n) => r matches NewWindowRoute::CurrentTab(t) && t@ == n,
                Err(_) => r matches NewWindowRoute::NavigationFailed(u) && u@ == url@,
            },
            WindowDisposition::BackgroundTab | WindowDisposition::NewWindow => match normalized_url(url@) {
                Ok(n) => r matches NewWindowRoute::NewTab(t) && t@ == n,
                Err(_) => r matches NewWindowRoute::TabOpenFailed(u) && u@ == url@,
            },
            WindowDisposition::Blocked => r matches NewWindowRoute::Blocked(u) && u@ == url@,
        },
{
    let decision = if str_eq(policy, "new-tab") {
        WindowDisposition::BackgroundTab
    } else if str_eq(policy, "same-tab") {
        WindowDisposition::ForegroundTab
    } else if str_eq(policy, "block") {
        WindowDisposition::Blocked
    } else {
        requested
    };
    match decision {
        WindowDisposition::ForegroundTab => match normalize_url_input(url) {
            Ok(n) => NewWindowRoute::CurrentTab(n),
            Err(_) => NewWindowRoute::NavigationFailed(owned(url)),
        },
        WindowDisposition::BackgroundTab | WindowDisposition::NewWindow => match normalize_url_input(url) {
            Ok(n) => NewWindowRoute::NewTab(n),
            Err(_) => NewWindowRoute::TabOpenFailed(owned(url)),
        },
        WindowDisposition::Blocked => NewWindowRoute::Blocked(owned(url)),
    }
}

/// How long a page may stay at "load started" before the shell warns, in
/// milliseconds.
pub const LOAD_STUCK_AFTER_MS: i64 = 10000;

/// How many mostly white frames in a row the shell takes before it warns.
pub const BLANK_FRAMES_BEFORE_WARNING: u32 = 30;

/// What the shell watches of rendering since the last committed navigation.
#[derive(Debug, Clone)]
pub struct RenderWatch {
    pub last_nav_url: Option<String>,
    pub blank_frame_streak: u32,
    pub blank_frame_warned: bool,
    pub render_capture_logged: bool,
    pub load_status_started_at: Option<i64>,
    pub load_status_warned: bool,
}

/// What becomes of the shell's render warning after a look at the load
/// status.
#[derive(Debug, Clone, Copy, PartialEq, Eq)]
pub enum LoadNotice {
    /// The page has been loading for too long: warn.
    StuckWarning,
    /// Any render warning is cleared.
    ClearWarning,
    /// The render warning stays as it is.
    Unchanged,
}

/// What a look at one probed frame calls for.
#[derive(Debug, Clone, Copy, PartialEq, Eq)]
pub enum ProbeNotice {
    Quiet,
    /// Too many mostly white frames while the page loads; `log_capture`
    /// says whether the capture is described for the first time since the
    /// navigation.
    BlankWarning { log_capture: bool },
    /// The first frame with content since the navigation.
    ContentFound,
}

impl RenderWatch {
    /// Nothing watched yet.
    pub fn new() -> (r: Self)
        ensures
            r.last_nav_url is None,
            r.blank_frame_streak == 0,
            !r.blank_frame_warned,
            !r.render_capture_logged,
            r.load_status_started_at is None,
            !r.load_status_warned,
    {
        RenderWatch {
            last_nav_url: None,
            blank_frame_streak: 0,
            blank_frame_warned: false,
            render_capture_logged: false,
            load_status_started_at: None,
            load_status_warned: false,
        }
    }

    /// Looks at the load status at time `now_ms`: a change of committed
    /// page starts the watch afresh; a page that has been at "load started"
    /// for `LOAD_STUCK_AFTER_MS` is warned about once; any other status
    /// stops the timer and clears the warning.
    pub fn update_render_health(&mut self, committed_url: Option<&str>, load_started: bool, now_ms: i64) -> (r: LoadNotice)
        ensures
            ({
                let nav_changed = opt_view(old(self).last_nav_url) != match committed_url { Some(u) => Some(u@), None => None };
                let started = if nav_changed { None } else { old(self).load_status_started_at };
                let warned = if nav_changed { false } else { old(self).load_status_warned };
                let since = if started is Some { started->0 } else { now_ms };
                let stuck = load_started && now_ms - since >= LOAD_STUCK_AFTER_MS && !warned;
                &&& opt_view(final(self).last_nav_url) == match committed_url { Some(u) => Some(u@), None => None }
                &&& final(self).blank_frame_streak == if nav_changed { 0 } else { old(self).blank_frame_streak }
                &&& final(self).blank_frame_warned == if nav_changed { false } else { old(self).blank_frame_warned }
                &&& final(self).render_capture_logged == if nav_changed { false } else { old(self).render_capture_logged }
                &&& final(self).load_status_started_at == if load_started { Some(since) } else { None }
                &&& final(self).load_status_warned == (load_started && (warned || stuck))
                &&& r == if stuck {
                    LoadNotice::StuckWarning
                } else if nav_changed || !load_started {
                    LoadNotice::ClearWarning
                } else {
                    LoadNotice::Unchanged
                }
            }),
    {
        let same = match (&self.last_nav_url, committed_url) {
            (Some(a), Some(b)) => str_eq(a.as_str(), b),
            (None, None) => true,
            _ => false,
        };
        if !same {
            self.last_nav_url = match committed_url {
                Some(u) => Some(owned(u)),
                None => None,
            };
            self.blank_frame_streak = 0;
            self.blank_frame_warned = false;
            self.render_capture_logged = false;
            self.load_status_started_at = None;
            self.load_status_warned = false;
        }
        if load_started {
            let since = match self.load_status_started_at {
                Some(t) => t,
                None => now_ms,
            };
            self.load_status_started_at = Some(since);
            if (now_ms as i128) - (since as i128) >= (LOAD_STUCK_AFTER_MS as i128) && !self.load_status_warned {
                self.load_status_warned = true;
                LoadNotice::StuckWarning
            } else if !same {
                LoadNotice::ClearWarning
            } else {
                LoadNotice::Unchanged
            }
        } else {
            self.load_status_started_at = None;
            self.load_status_warned = false;
            LoadNotice::ClearWarning
        }
    }

    /// Looks at one probed frame: `mostly_white` when almost none of it is
    /// coloured, `page_loading` when the page has made progress. A long
    /// enough run of white frames while the page loads is warned about once
    /// per run; a frame with content ends the run.
    pub fn observe_probe(&mut self, mostly_white: bool, page_loading: bool) -> (r: ProbeNotice)
        ensures
            final(self).last_nav_url == old(self).last_nav_url,
            final(self).load_status_started_at == old(self).load_status_started_at,
            final(self).load_status_warned == old(self).load_status_warned,
            mostly_white ==> {
                let streak = if old(self).blank_frame_streak == u32::MAX { u32::MAX } else { (old(self).blank_frame_streak + 1) as u32 };
                let warn = streak >= BLANK_FRAMES_BEFORE_WARNING && !old(self).blank_frame_warned && page_loading;
                &&& final(self).blank_frame_streak == streak
                &&& final(self).blank_frame_warned == (old(self).blank_frame_warned || warn)
                &&& final(self).render_capture_logged == (old(self).render_capture_logged || warn)
                &&& r == if warn { ProbeNotice::BlankWarning { log_capture: !old(self).render_capture_logged } } else { ProbeNotice::Quiet }
            },
            !mostly_white ==> {
                &&& final(self).blank_frame_streak == 0
                &&& !final(self).blank_frame_warned
                &&& final(self).render_capture_logged
                &&& r == if old(self).render_capture_logged { ProbeNotice::Quiet } else { ProbeNotice::ContentFound }
            },
    {
        if mostly_white {
            self.blank_frame_streak = self.blank_frame_streak.saturating_add(1);
            if self.blank_frame_streak >= BLANK_FRAMES_BEFORE_WARNING && !self.blank_frame_warned && page_loading {
                self.blank_frame_warned = true;
                let log_capture = !self.render_capture_logged;
                self.render_capture_logged = true;
                ProbeNotice::BlankWarning { log_capture }
            } else {
                ProbeNotice::Quiet
            }
        } else {
            self.blank_frame_streak = 0;
            self.blank_frame_warned = false;
            if self.render_capture_logged {
                ProbeNotice::Quiet
            } else {
                self.render_capture_logged = true;
                ProbeNotice::ContentFound
            }
        }
    }
}

/// Appends the characters of `s`.
fn append_str(buf: &mut Vec<char>, s: &str)
    ensures
        final(buf)@ == old(buf)@ + s@,
{
    let c = chars_of(s);
    let joined = concat_chars(buf.as_slice(), c.as_slice());
    *buf = joined;
}

/// The name of the file an engine crash is written to.
pub open spec fn crash_dump_file_name(stamp: Seq<char>) -> Seq<char> {
    "crash-"@ + stamp + ".log"@
}

/// What an engine crash dump holds: one `key=value` line each for the
/// time, the reason, the session, the profile and the active address.
pub open spec fn crash_dump_text(
    stamp: Seq<char>,
    reason: Seq<char>,
    session_id: Seq<char>,
    profile: Seq<char>,
    active_url: Seq<char>,
) -> Seq<char> {
    "timestamp="@ + stamp + "\nreason="@ + reason + "\nsession_id="@ + session_id + "\nprofile="@ + profile
        + "\nactive_url="@ + active_url + "\n"@
}

/// Names the file an engine crash at time `stamp` is written to.
pub fn crash_dump_name(stamp: &str) -> (r: String)
    ensures
        r@ == crash_dump_file_name(stamp@),
{
    let mut buf: Vec<char> = Vec::new();
    append_str(&mut buf, "crash-");
    append_str(&mut buf, stamp);
    append_str(&mut buf, ".log");
    assert(buf@ =~= crash_dump_file_name(stamp@));
    string_of(buf.as_slice())
}

/// Writes out what an engine crash dump holds.
pub fn crash_dump_payload(stamp: &str, reason: &str, session_id: &str, profile: &str, active_url: &str) -> (r: String)
    ensures
        r@ == crash_dump_text(stamp@, reason@, session_id@, profile@, active_url@),
{
    let mut buf: Vec<char> = Vec::new();
    append_str(&mut buf, "timestamp=");
    append_str(&mut buf, stamp);
    append_str(&mut buf, "\nreason=");
    append_str(&mut buf, reason);
    append_str(&mut buf, "\nsession_id=");
    append_str(&mut buf, session_id);
    append_str(&mut buf, "\nprofile=");
    append_str(&mut buf, profile);
    append_str(&mut buf, "\nactive_url=");
    append_str(&mut buf, active_url);
    append_str(&mut buf, "\n");
    assert(buf@ =~= crash_dump_text(stamp@, reason@, session_id@, profile@, active_url@));
    string_of(buf.as_slice())
}

/// What the engine reports to the shell, but for navigation progress and
/// context menus, which carry screen measures.
#[derive(Debug, Clone)]
pub enum EngineNotice {
    StatusChanged(EngineStatus),
    RenderHealthUpdated(RenderHealth),
    CursorChanged { cursor: String },
    DevtoolsReady { endpoint: String },
    NavigationFailed { input: String, reason: String },
    PopupRequested { url: String, disposition: WindowDisposition },
    DialogRequested { kind: DialogKind, message: String },
    NewWindowRequested { url: String, disposition: WindowDisposition },
    DownloadRequested { url: String, suggested_path: Option<String> },
    SecurityWarning { kind: SecurityWarningKind, url: String },
    Crashed { reason: String },
}

/// What the shell shows of the engine.
#[derive(Debug, Clone)]
pub struct EngineMirror {
    pub engine_status: EngineStatus,
    pub health: RenderHealth,
    pub cursor_icon: Option<String>,
    pub devtools_endpoint: Option<String>,
    pub pending_popup: Option<(String, WindowDisposition)>,
    pub pending_dialog: Option<(DialogKind, String)>,
    pub pending_new_window: Option<(String, WindowDisposition)>,
    pub last_download: Option<String>,
    /// The downloads of the active tab.
    pub downloads: Vec<String>,
    pub last_security_warning: Option<(SecurityWarningKind, String)>,
    pub last_crash: Option<String>,
    pub crash_recovery_pending: bool,
}

/// The name a window disposition is logged by.
pub open spec fn disposition_name(d: WindowDisposition) -> Seq<char> {
    match d {
        WindowDisposition::ForegroundTab => "ForegroundTab"@,
        WindowDisposition::BackgroundTab => "BackgroundTab"@,
        WindowDisposition::NewWindow => "NewWindow"@,
        WindowDisposition::Blocked => "Blocked"@,
    }
}

/// The name a dialog kind is logged by.
pub open spec fn dialog_name(k: DialogKind) -> Seq<char> {
    match k {
        DialogKind::Alert => "Alert"@,
        DialogKind::Confirm => "Confirm"@,
        DialogKind::Prompt => "Prompt"@,
    }
}

/// The name a security warning is logged by.
pub open spec fn warning_name(k: SecurityWarningKind) -> Seq<char> {
    match k {
        SecurityWarningKind::MixedContent => "MixedContent"@,
        SecurityWarningKind::TlsError => "TlsError"@,
    }
}

/// The line a notice adds to the shell's event log; health and cursor
/// changes add none.
pub open spec fn notice_log_line(n: EngineNotice) -> Option<Seq<char>> {
    match n {
        EngineNotice::StatusChanged(s) => Some("status: "@ + engine_status_text(s)),
        EngineNotice::RenderHealthUpdated(_) => None,
        EngineNotice::CursorChanged { .. } => None,
        EngineNotice::DevtoolsReady { endpoint } => Some("devtools ready: "@ + endpoint@),
        EngineNotice::NavigationFailed { input, reason } => Some("navigation failed: "@ + input@ + " ("@ + reason@ + ")"@),
        EngineNotice::PopupRequested { url, disposition } => Some("popup requested: "@ + url@ + " ("@ + disposition_name(disposition) + ")"@),
        EngineNotice::DialogRequested { kind, .. } => Some("dialog requested: "@ + dialog_name(kind)),
        EngineNotice::NewWindowRequested { url, disposition } => Some("new window requested: "@ + url@ + " ("@ + disposition_name(disposition) + ")"@),
        EngineNotice::DownloadRequested { url, suggested_path } => Some("download requested: "@
            + download_notice(url@, opt_view(suggested_path))),
        EngineNotice::SecurityWarning { kind, url } => Some("security warning: "@ + warning_name(kind) + " "@ + url@),
        EngineNotice::Crashed { reason } => Some("engine crashed: "@ + reason@),
    }
}

/// What the shell shows of the engine after a notice: the new status,
/// health, cursor or devtools address; the popup, dialog or new window now
/// pending; the download noted (also among the active tab's downloads);
/// the security warning; or the crash, with recovery pending.
pub open spec fn mirror_after(m: EngineMirror, n: EngineNotice) -> EngineMirror {
    match n {
        EngineNotice::StatusChanged(s) => EngineMirror { engine_status: s, ..m },
        EngineNotice::RenderHealthUpdated(h) => EngineMirror { health: h, ..m },
        EngineNotice::CursorChanged { cursor } => EngineMirror { cursor_icon: Some(cursor), ..m },
        EngineNotice::DevtoolsReady { endpoint } => EngineMirror { devtools_endpoint: Some(endpoint), ..m },
        EngineNotice::NavigationFailed { .. } => m,
        EngineNotice::PopupRequested { url, disposition } => EngineMirror { pending_popup: Some((url, disposition)), ..m },
        EngineNotice::DialogRequested { kind, message } => EngineMirror { pending_dialog: Some((kind, message)), ..m },
        EngineNotice::NewWindowRequested { url, disposition } => EngineMirror { pending_new_window: Some((url, disposition)), ..m },
        EngineNotice::DownloadRequested { .. } => m,
        EngineNotice::SecurityWarning { kind, url } => EngineMirror { last_security_warning: Some((kind, url)), ..m },
        EngineNotice::Crashed { reason } => EngineMirror { last_crash: Some(reason), crash_recovery_pending: true, ..m },
    }
}

/// Two pieces of text one after the other.
fn cat(a: &str, b: &str) -> (r: String)
    ensures
        r@ == a@ + b@,
{
    let mut buf: Vec<char> = Vec::new();
    append_str(&mut buf, a);
    append_str(&mut buf, b);
    assert(buf@ =~= a@ + b@);
    string_of(buf.as_slice())
}

fn disposition_text(d: WindowDisposition) -> (r: &'static str)
    ensures
        r@ == disposition_name(d),
{
    match d {
        WindowDisposition::ForegroundTab => "ForegroundTab",
        WindowDisposition::BackgroundTab => "BackgroundTab",
        WindowDisposition::NewWindow => "NewWindow",
        WindowDisposition::Blocked => "Blocked",
    }
}

/// Takes in one engine notice: updates what the shell shows of the engine
/// and adds the notice's line to the event log.
pub fn apply_engine_notice(mirror: &mut EngineMirror, event_log: &mut Vec<String>, notice: EngineNotice)
    ensures
        !(notice is DownloadRequested) ==> *final(mirror) == mirror_after(*old(mirror), notice),
        notice matches EngineNotice::DownloadRequested { url, suggested_path } ==> {
            let message = download_notice(url@, opt_view(suggested_path));
            &&& opt_view(final(mirror).last_download) == Some(message)
            &&& strings_view(final(mirror).downloads@) == strings_view(old(mirror).downloads@).push(message)
            &&& (EngineMirror { last_download: old(mirror).last_download, downloads: old(mirror).downloads, ..*final(mirror) }) == *old(mirror)
        },
        strings_view(final(event_log)@) == match notice_log_line(notice) {
            Some(l) => strings_view(old(event_log)@).push(l),
            None => strings_view(old(event_log)@),
        },
{
    let ghost old_log = event_log@;
    let line: Option<String> = match notice {
        EngineNotice::StatusChanged(status) => {
            let t = status.display_text();
            mirror.engine_status = status;
            Some(cat("status: ", t.as_str()))
        },
        EngineNotice::RenderHealthUpdated(h) => {
            mirror.health = h;
            None
        },
        EngineNotice::CursorChanged { cursor } => {
            mirror.cursor_icon = Some(cursor);
            None
        },
        EngineNotice::DevtoolsReady { endpoint } => {
            let l = cat("devtools ready: ", endpoint.as_str());
            mirror.devtools_endpoint = Some(endpoint);
            Some(l)
        },
        EngineNotice::NavigationFailed { input, reason } => {
            Some(cat(cat(cat(cat("navigation failed: ", input.as_str()).as_str(), " (").as_str(), reason.as_str()).as_str(), ")"))
        },
        EngineNotice::PopupRequested { url, disposition } => {
            let l = cat(cat(cat(cat("popup requested: ", url.as_str()).as_str(), " (").as_str(), disposition_text(disposition)).as_str(), ")");
            mirror.pending_popup = Some((url, disposition));
            Some(l)
        },
        EngineNotice::DialogRequested { kind, message } => {
            let name = match kind {
                DialogKind::Alert => "Alert",
                DialogKind::Confirm => "Confirm",
                DialogKind::Prompt => "Prompt",
            };
            let l = cat("dialog requested: ", name);
            mirror.pending_dialog = Some((kind, message));
            Some(l)
        },
        EngineNotice::NewWindowRequested { url, disposition } => {
            let l = cat(cat(cat(cat("new window requested: ", url.as_str()).as_str(), " (").as_str(), disposition_text(disposition)).as_str(), ")");
            mirror.pending_new_window = Some((url, disposition));
            Some(l)
        },
        EngineNotice::DownloadRequested { url, suggested_path } => {
            let message = match &suggested_path {
                Some(p) => download_message(url.as_str(), Some(p.as_str())),
                None => download_message(url.as_str(), None),
            };
            let l = cat("download requested: ", message.as_str());
            let ghost old_downloads = mirror.downloads@;
            mirror.downloads.push(owned(message.as_str()));
            assert(strings_view(mirror.downloads@) =~= strings_view(old_downloads).push(message@));
            mirror.last_download = Some(message);
            Some(l)
        },
        EngineNotice::SecurityWarning { kind, url } => {
            let name = match kind {
                SecurityWarningKind::MixedContent => "MixedContent",
                SecurityWarningKind::TlsError => "TlsError",
            };
            let l = cat(cat(cat("security warning: ", name).as_str(), " ").as_str(), url.as_str());
            mirror.last_security_warning = Some((kind, url));
            Some(l)
        },
        EngineNotice::Crashed { reason } => {
            let l = cat("engine crashed: ", reason.as_str());
            mirror.last_crash = Some(reason);
            mirror.crash_recovery_pending = true;
            Some(l)
        },
    };
    match line {
        Some(l) => {
            event_log.push(l);
            assert(strings_view(event_log@) =~= strings_view(old_log).push(l@));
        },
        None => {},
    }
}

} // verus!
