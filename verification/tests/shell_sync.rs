use brazen::engine::{DialogKind, EngineStatus, SecurityWarningKind};
use brazen::shell_sync::{apply_engine_notice, EngineNotice};
use brazen::engine::WindowDisposition;
use brazen::shell_sync::{
    crash_dump_name, crash_dump_payload, download_message, record_network_request, route_new_window,
    LoadNotice, NewWindowRoute, ProbeNotice, RenderWatch, RestartSchedule, VisitLedger,
    NETWORK_LOG_CAPACITY,
};
use std::collections::VecDeque;

fn count_of(ledger: &VisitLedger, url: &str) -> u32 {
    ledger
        .visit_counts
        .iter()
        .find(|(u, _)| u == url)
        .map(|(_, c)| *c)
        .unwrap_or(0)
}

#[test]
fn ledger_counts_new_pages_and_revisits() {
    let mut ledger = VisitLedger::new();
    assert!(ledger.commit_navigation("https://a.example/"));
    assert!(ledger.commit_navigation("https://b.example/"));
    assert!(ledger.commit_navigation("https://a.example/"));
    assert_eq!(ledger.visit_total, 3);
    assert_eq!(ledger.revisit_total, 1);
    assert_eq!(count_of(&ledger, "https://a.example/"), 2);
    assert_eq!(count_of(&ledger, "https://b.example/"), 1);
    assert_eq!(
        ledger.history,
        vec![
            "https://a.example/".to_string(),
            "https://b.example/".to_string(),
            "https://a.example/".to_string()
        ]
    );
    assert_eq!(ledger.last_committed_url.as_deref(), Some("https://a.example/"));
}

#[test]
fn ledger_ignores_the_same_page_reported_again() {
    let mut ledger = VisitLedger::new();
    assert!(ledger.commit_navigation("https://a.example/"));
    assert!(!ledger.commit_navigation("https://a.example/"));
    assert!(!ledger.commit_navigation("https://a.example/"));
    assert_eq!(ledger.visit_total, 1);
    assert_eq!(ledger.revisit_total, 0);
    assert_eq!(ledger.history.len(), 1);
    assert_eq!(count_of(&ledger, "https://a.example/"), 1);
}

#[test]
fn ledger_totals_add_up_to_distinct_pages_plus_revisits() {
    let mut ledger = VisitLedger::new();
    for url in ["a", "b", "a", "c", "b", "b", "a"] {
        ledger.commit_navigation(url);
    }
    assert_eq!(ledger.visit_total, 6);
    assert_eq!(ledger.visit_counts.len() as u64 + ledger.revisit_total, ledger.visit_total);
    let sum: u64 = ledger.visit_counts.iter().map(|(_, c)| *c as u64).sum();
    assert_eq!(sum, ledger.visit_total);
}

#[test]
fn network_log_keeps_the_newest_entries() {
    let mut log: VecDeque<u32> = VecDeque::new();
    for i in 0..(NETWORK_LOG_CAPACITY as u32 + 3) {
        record_network_request(&mut log, i);
    }
    assert_eq!(log.len(), NETWORK_LOG_CAPACITY);
    assert_eq!(log.front(), Some(&3));
    assert_eq!(log.back(), Some(&(NETWORK_LOG_CAPACITY as u32 + 2)));
}

#[test]
fn download_message_names_the_suggested_path() {
    assert_eq!(
        download_message("https://x.example/f.zip", Some("/tmp/f.zip")),
        "https://x.example/f.zip -> /tmp/f.zip"
    );
    assert_eq!(download_message("https://x.example/f.zip", None), "https://x.example/f.zip");
}

#[test]
fn restart_backoff_doubles_up_to_thirty_two_seconds() {
    let mut schedule = RestartSchedule::new();
    let mut waits = Vec::new();
    let mut now: i64 = 1_000;
    for _ in 0..7 {
        let wait = schedule.schedule_restart(now).expect("scheduled");
        waits.push(wait);
        assert_eq!(schedule.pending_restart_at, Some(now + wait as i64 * 1000));
        assert!(schedule.poll_recovery(false, now + wait as i64 * 1000));
        now += 100_000;
    }
    assert_eq!(waits, vec![2, 4, 8, 16, 32, 32, 32]);
    assert_eq!(schedule.crash_count, 7);
}

#[test]
fn restart_waits_until_due_and_ignores_repeat_crashes() {
    let mut schedule = RestartSchedule::new();
    assert!(!schedule.poll_recovery(true, 10_000));
    assert_eq!(schedule.pending_restart_at, Some(12_000));
    assert_eq!(schedule.schedule_restart(11_000), None);
    assert!(!schedule.poll_recovery(true, 11_999));
    assert_eq!(schedule.crash_count, 1);
    assert!(schedule.poll_recovery(true, 12_000));
    assert_eq!(schedule.pending_restart_at, None);
    assert!(!schedule.poll_recovery(false, 20_000));
}

#[test]
fn new_window_policy_routes_requests() {
    assert_eq!(
        route_new_window("new-tab", WindowDisposition::ForegroundTab, "example.com"),
        NewWindowRoute::NewTab("https://example.com/".to_string())
    );
    assert_eq!(
        route_new_window("same-tab", WindowDisposition::NewWindow, "https://example.com/a"),
        NewWindowRoute::CurrentTab("https://example.com/a".to_string())
    );
    assert_eq!(
        route_new_window("block", WindowDisposition::ForegroundTab, "https://example.com/"),
        NewWindowRoute::Blocked("https://example.com/".to_string())
    );
    assert_eq!(
        route_new_window("ask", WindowDisposition::BackgroundTab, "   "),
        NewWindowRoute::TabOpenFailed("   ".to_string())
    );
    assert_eq!(
        route_new_window("ask", WindowDisposition::ForegroundTab, ""),
        NewWindowRoute::NavigationFailed(String::new())
    );
}

#[test]
fn render_watch_warns_once_about_a_stuck_load() {
    let mut watch = RenderWatch::new();
    assert_eq!(watch.update_render_health(Some("https://a/"), true, 0), LoadNotice::ClearWarning);
    assert_eq!(watch.update_render_health(Some("https://a/"), true, 9_999), LoadNotice::Unchanged);
    assert_eq!(watch.update_render_health(Some("https://a/"), true, 10_000), LoadNotice::StuckWarning);
    assert_eq!(watch.update_render_health(Some("https://a/"), true, 20_000), LoadNotice::Unchanged);
    assert_eq!(watch.update_render_health(Some("https://a/"), false, 20_001), LoadNotice::ClearWarning);
    assert_eq!(watch.load_status_started_at, None);
    assert_eq!(watch.update_render_health(Some("https://b/"), true, 30_000), LoadNotice::ClearWarning);
    assert_eq!(watch.load_status_started_at, Some(30_000));
}

#[test]
fn render_watch_warns_after_a_run_of_blank_frames() {
    let mut watch = RenderWatch::new();
    for _ in 0..29 {
        assert_eq!(watch.observe_probe(true, true), ProbeNotice::Quiet);
    }
    assert_eq!(watch.observe_probe(true, true), ProbeNotice::BlankWarning { log_capture: true });
    assert_eq!(watch.observe_probe(true, true), ProbeNotice::Quiet);
    assert_eq!(watch.observe_probe(false, true), ProbeNotice::Quiet);
    assert_eq!(watch.blank_frame_streak, 0);
    let mut fresh = RenderWatch::new();
    assert_eq!(fresh.observe_probe(false, false), ProbeNotice::ContentFound);
    assert_eq!(fresh.observe_probe(false, false), ProbeNotice::Quiet);
}

#[test]
fn crash_dump_lists_the_crash_details() {
    assert_eq!(crash_dump_name("20240101-120000"), "crash-20240101-120000.log");
    assert_eq!(
        crash_dump_payload("20240101-120000", "gpu lost", "s-1", "default", "https://a/"),
        "timestamp=20240101-120000\nreason=gpu lost\nsession_id=s-1\nprofile=default\nactive_url=https://a/\n"
    );
}

fn mirror() -> brazen::shell_sync::EngineMirror {
    brazen::shell_sync::EngineMirror {
        engine_status: brazen::engine::EngineStatus::Initializing,
        health: brazen::engine::RenderHealth {
            resource_reader_ready: None,
            resource_reader_path: None,
            upstream_active: false,
            last_error: None,
        },
        cursor_icon: None,
        devtools_endpoint: None,
        pending_popup: None,
        pending_dialog: None,
        pending_new_window: None,
        last_download: None,
        downloads: Vec::new(),
        last_security_warning: None,
        last_crash: None,
        crash_recovery_pending: false,
    }
}

#[test]
fn engine_notices_update_the_mirror_and_log() {
    let mut m = mirror();
    let mut log: Vec<String> = Vec::new();
    apply_engine_notice(&mut m, &mut log, EngineNotice::StatusChanged(EngineStatus::Ready));
    apply_engine_notice(&mut m, &mut log, EngineNotice::CursorChanged { cursor: "pointer".to_string() });
    apply_engine_notice(&mut m, &mut log, EngineNotice::PopupRequested {
        url: "https://p/".to_string(),
        disposition: WindowDisposition::NewWindow,
    });
    apply_engine_notice(&mut m, &mut log, EngineNotice::DialogRequested { kind: DialogKind::Confirm, message: "ok?".to_string() });
    apply_engine_notice(&mut m, &mut log, EngineNotice::DownloadRequested {
        url: "https://d/f".to_string(),
        suggested_path: Some("/tmp/f".to_string()),
    });
    apply_engine_notice(&mut m, &mut log, EngineNotice::SecurityWarning { kind: SecurityWarningKind::TlsError, url: "https://bad/".to_string() });
    apply_engine_notice(&mut m, &mut log, EngineNotice::Crashed { reason: "oom".to_string() });
    assert_eq!(m.engine_status, EngineStatus::Ready);
    assert_eq!(m.cursor_icon.as_deref(), Some("pointer"));
    assert_eq!(m.pending_popup, Some(("https://p/".to_string(), WindowDisposition::NewWindow)));
    assert_eq!(m.last_download.as_deref(), Some("https://d/f -> /tmp/f"));
    assert_eq!(m.downloads, vec!["https://d/f -> /tmp/f".to_string()]);
    assert_eq!(m.last_crash.as_deref(), Some("oom"));
    assert!(m.crash_recovery_pending);
    assert_eq!(
        log,
        vec![
            "status: Ready".to_string(),
            "popup requested: https://p/ (NewWindow)".to_string(),
            "dialog requested: Confirm".to_string(),
            "download requested: https://d/f -> /tmp/f".to_string(),
            "security warning: TlsError https://bad/".to_string(),
            "engine crashed: oom".to_string(),
        ]
    );
}
