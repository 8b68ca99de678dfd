use brazen::automation::{active_tab_index, authorize_connection, close_tab_at, dom_query_script, snapshot_cache_entries, tts_control_command};
use brazen::shell::ShellCommand;
use brazen::automation::{
    activity_id_for, admit_request, asset_summary_from_metadata, check_permission, complete_activity,
    ensure_cache_api, ensure_mount_api, ensure_tab_api, query_cache_entries, record_activity, resolve_tab_index,
    socket_message_step, subscribe, subscribe_logs, Admission, ApprovalBook, AutomationActivity,
    AutomationActivityStatus, AutomationResponse, PendingAction, PendingApproval, RateLimiter, RequestKind, TabRef,
};
use brazen::cache::{AssetQuery, AssetStore};
use brazen::config::CacheConfig;
use brazen::permissions::{Capability, PermissionDecision, PermissionPolicy};

fn policy_with(c: Capability, d: PermissionDecision) -> PermissionPolicy {
    let mut p = PermissionPolicy::default();
    p.capabilities.insert(0, (c, d));
    p
}

fn activity(id: &str) -> AutomationActivity {
    AutomationActivity {
        id: id.to_string(),
        command: "TabList".to_string(),
        status: AutomationActivityStatus::Running,
        timestamp: "12:00:00".to_string(),
        output: None,
    }
}

#[test]
fn terminal_exec_is_held_for_approval_when_ask() {
    let policy = policy_with(Capability::TerminalExec, PermissionDecision::Ask);
    let mut limiter = RateLimiter::new();
    let admission = admit_request(RequestKind::TerminalExec, true, true, &policy, &mut limiter, 0);
    assert!(matches!(admission, Admission::NeedsApproval(Capability::TerminalExec)));
    let mut book = ApprovalBook::new();
    book.insert(
        "a1".to_string(),
        PendingApproval {
            capability: Capability::TerminalExec,
            action: PendingAction::TerminalExec { cmd: "echo".to_string(), args: vec!["hi".to_string()], cwd: None },
            user_agent: None,
            client_ip: None,
        },
    );
    let approved = book.respond("a1", "Allow").unwrap();
    assert!(matches!(approved.action, PendingAction::TerminalExec { ref cmd, .. } if cmd == "echo"));
    assert_eq!(book.respond("a1", "allow").unwrap_err(), "unknown approval id");
}

#[test]
fn fs_write_denied_approval_is_refused() {
    let policy = policy_with(Capability::FsWrite, PermissionDecision::Ask);
    let mut limiter = RateLimiter::new();
    assert!(matches!(
        admit_request(RequestKind::FsWrite, true, true, &policy, &mut limiter, 0),
        Admission::NeedsApproval(Capability::FsWrite)
    ));
    let mut book = ApprovalBook::new();
    book.insert(
        "w".to_string(),
        PendingApproval {
            capability: Capability::FsWrite,
            action: PendingAction::FsWrite { url: "brazen://fs/m/test.txt".to_string(), body_base64: "aGVsbG8=".to_string() },
            user_agent: None,
            client_ip: None,
        },
    );
    assert_eq!(book.respond("w", "deny").unwrap_err(), "denied");
    assert_eq!(book.respond("w", "approve").unwrap_err(), "unknown approval id");
}

#[test]
fn rate_limit_blocks_excess_terminal_exec() {
    let policy = policy_with(Capability::TerminalExec, PermissionDecision::Allow);
    let mut limiter = RateLimiter::new();
    for i in 0..30u64 {
        assert!(matches!(
            admit_request(RequestKind::TerminalExec, true, true, &policy, &mut limiter, i * 100),
            Admission::Proceed
        ));
    }
    match admit_request(RequestKind::TerminalExec, true, true, &policy, &mut limiter, 3100) {
        Admission::Refused(e) => assert_eq!(e, "rate-limit"),
        _ => panic!("expected rate-limit"),
    }
    assert!(matches!(
        admit_request(RequestKind::TerminalExec, true, true, &policy, &mut limiter, 70000),
        Admission::Proceed
    ));
}

#[test]
fn gates_answer_as_the_policy_says() {
    let allow = policy_with(Capability::TabInspect, PermissionDecision::Allow);
    assert_eq!(ensure_tab_api(false, &allow).unwrap_err(), "tab api disabled");
    assert!(ensure_tab_api(true, &allow).is_ok());
    let ask = policy_with(Capability::CacheRead, PermissionDecision::Ask);
    assert_eq!(ensure_cache_api(false, &ask).unwrap_err(), "cache api disabled");
    assert_eq!(ensure_cache_api(true, &ask).unwrap_err(), "approval-required");
    let deny = policy_with(Capability::VirtualResourceMount, PermissionDecision::Deny);
    assert_eq!(ensure_mount_api(&deny).unwrap_err(), "permission denied: virtual-resource-mount");
    assert_eq!(check_permission(&deny, Capability::VirtualResourceMount).unwrap_err(), "capability denied");
    let mut limiter = RateLimiter::new();
    match admit_request(RequestKind::RenderedText, true, true, &allow, &mut limiter, 0) {
        Admission::Refused(e) => assert_eq!(e, "rendered text not implemented"),
        _ => panic!("expected refusal"),
    }
}

#[test]
fn activity_log_keeps_last_entries() {
    let mut log = Vec::new();
    for i in 0..130 {
        record_activity(&mut log, activity(&format!("a{i}")));
    }
    assert_eq!(log.len(), 128);
    assert_eq!(log[0].id, "a2");
    assert_eq!(log[127].id, "a129");
    complete_activity(&mut log, "a5", false, Some("boom".to_string()));
    assert_eq!(log[3].status, AutomationActivityStatus::Failed);
    assert_eq!(log[3].output.as_deref(), Some("boom"));
    assert_eq!(log[4].status, AutomationActivityStatus::Running);
    assert_eq!(activity_id_for(&None, 7), "auto-7");
    assert_eq!(activity_id_for(&Some("x".to_string()), 7), "x");
}

#[test]
fn subscriptions_are_lowercased_and_limited() {
    let topics = vec!["Navigation".to_string(), "LOGS".to_string()];
    assert_eq!(subscribe(&topics, 2).unwrap(), vec!["navigation".to_string(), "logs".to_string()]);
    assert_eq!(subscribe(&topics, 1).unwrap_err(), "subscription limit exceeded");
    let mut current = vec!["navigation".to_string()];
    subscribe_logs(&mut current);
    subscribe_logs(&mut current);
    assert_eq!(current, vec!["navigation".to_string(), "logs".to_string()]);
    assert_eq!(socket_message_step(0, 5, 1000, 5), (0, 6, true));
    assert_eq!(socket_message_step(0, 5, 61000, 5), (61000, 1, false));
}

#[test]
fn cache_query_filters_and_limits() {
    let mut store = AssetStore::new(CacheConfig::default(), "p".to_string(), Vec::new(), Vec::new());
    for i in 0..3 {
        store.record_asset(&format!("https://a.example/{i}"), None, None, Some(200), "text/html", Some(b"x"),
            Vec::new(), false, false, None, None, None);
    }
    store.record_asset("https://b.example/", None, None, Some(404), "text/css", None, Vec::new(), false, false,
        None, None, None);
    let summaries: Vec<_> = store.entries().iter().map(asset_summary_from_metadata).collect();
    assert_eq!(summaries[3].status_code, Some(404));
    let q = AssetQuery { url: Some("a.example".to_string()), ..AssetQuery::default() };
    assert_eq!(query_cache_entries(&summaries, &Some(q), Some(2)).len(), 2);
    assert_eq!(query_cache_entries(&summaries, &None, None).len(), 4);
    let css = AssetQuery { mime: Some("css".to_string()), ..AssetQuery::default() };
    let found = query_cache_entries(&summaries, &Some(css), None);
    assert_eq!(found.len(), 1);
    assert_eq!(found[0].url, "https://b.example/");
}

#[test]
fn tab_index_resolution() {
    let tabs = vec![
        TabRef { tab_id: "t1".to_string(), index: 0 },
        TabRef { tab_id: "t2".to_string(), index: 1 },
    ];
    assert_eq!(resolve_tab_index(&tabs, Some(1), None), Ok(1));
    assert_eq!(resolve_tab_index(&tabs, Some(5), Some("t1")).unwrap_err(), "tab index out of range");
    assert_eq!(resolve_tab_index(&tabs, None, Some("t2")), Ok(1));
    assert_eq!(resolve_tab_index(&tabs, None, Some("t9")).unwrap_err(), "tab not found");
    assert_eq!(resolve_tab_index(&tabs, None, None).unwrap_err(), "tab not found");
}

#[test]
fn responses_carry_their_id() {
    let ok: AutomationResponse<u32> = AutomationResponse::success(Some("1".to_string()), Some(5));
    assert!(ok.ok && ok.result == Some(5) && ok.error.is_none());
    let err: AutomationResponse<u32> = AutomationResponse::failure(None, "invalid request");
    assert!(!err.ok && err.error.as_deref() == Some("invalid request"));
}

#[test]
fn connections_authorize_by_bearer_or_query_token() {
    let secret = Some("s3".to_string());
    assert!(authorize_connection(false, None, &None, &secret));
    assert!(authorize_connection(true, Some("Bearer s3"), &None, &secret));
    assert!(!authorize_connection(true, Some("Bearer nope"), &Some("s3".to_string()), &secret));
    assert!(authorize_connection(true, Some("Basic abc"), &Some("s3".to_string()), &secret));
    assert!(!authorize_connection(true, None, &None, &secret));
    assert!(authorize_connection(true, None, &None, &None));
}

#[test]
fn snapshot_helpers() {
    assert_eq!(
        dom_query_script("h1"),
        "document.querySelector('h1') ? document.querySelector('h1').outerHTML : null"
    );
    let mut tabs = vec!["a", "b", "c"];
    let mut active = 2usize;
    let mut log: Vec<String> = Vec::new();
    assert!(close_tab_at(&mut tabs, &mut active, 2, &mut log));
    assert_eq!(tabs, vec!["a", "b"]);
    assert_eq!(active, 1);
    assert_eq!(log, vec!["automation close tab".to_string()]);
    assert!(!close_tab_at(&mut tabs, &mut active, 5, &mut log));
    assert_eq!(log.len(), 1);
    assert_eq!(active_tab_index(&vec![7, 9, 11], Some(9)), 1);
    assert_eq!(active_tab_index(&vec![7, 9, 11], Some(4)), 0);
    assert_eq!(active_tab_index(&vec![7], None), 0);
    let mut store = AssetStore::new(CacheConfig::default(), "p".to_string(), Vec::new(), Vec::new());
    store.record_asset("https://x/", None, None, None, "text/html", None, Vec::new(), false, false, None, None, None);
    let s = snapshot_cache_entries(store.entries());
    assert_eq!(s.len(), 1);
    assert_eq!(s[0].asset_id, "asset-1");
}

#[test]
fn requested_approvals_get_fresh_ids() {
    let mut book = ApprovalBook::new();
    let pending = |url: &str| PendingApproval {
        capability: Capability::FsRead,
        action: PendingAction::FsRead { url: url.to_string() },
        user_agent: None,
        client_ip: None,
    };
    let first = book.request_approval(pending("brazen://fs/m/a"));
    let second = book.request_approval(pending("brazen://fs/m/b"));
    assert_eq!(first.len(), 36);
    assert_ne!(first, second);
    let answered = book.respond(&second, "approve").unwrap();
    assert!(matches!(answered.action, PendingAction::FsRead { ref url } if url == "brazen://fs/m/b"));
    assert!(book.respond(&first, "allow").is_ok());
}

#[test]
fn tts_control_names_a_speech_command() {
    assert!(matches!(tts_control_command("pause"), Ok(ShellCommand::TtsPause)));
    assert!(matches!(tts_control_command("resume"), Ok(ShellCommand::TtsResume)));
    assert!(matches!(tts_control_command("stop"), Ok(ShellCommand::TtsStop)));
    assert_eq!(tts_control_command("Pause").unwrap_err(), "invalid tts action");
}

#[test]
fn lowercased_decisions_answer_approvals() {
    let mut book = ApprovalBook::new();
    let id = book.request_approval(PendingApproval {
        capability: Capability::FsRead,
        action: PendingAction::FsRead { url: "brazen://fs/m/a".to_string() },
        user_agent: None,
        client_ip: None,
    });
    assert_eq!(book.respond_lowercased(&id, "Allow").unwrap_err(), "denied");
    assert_eq!(book.respond_lowercased(&id, "allow").unwrap_err(), "unknown approval id");
}
