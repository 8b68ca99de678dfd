use brazen::shell::filter_palette;
use brazen::shell::cache_query_from_fields;
use brazen::shell::{empty_to_none, layout_preset_toggles, DiagnosticTab, LayoutPreset};
use brazen::shell::{dispatch_command, next_click_count, palette_entries, CommandOutcome, EngineAction, PaletteCommand, ShellCommand, ShellControls};

fn controls() -> ShellControls {
    ShellControls {
        address_bar_input: String::new(),
        log_panel_open: false,
        permission_panel_open: false,
        tts_playing: false,
        tts_queue: Vec::new(),
        reader_mode_open: false,
        reader_mode_source_url: None,
        event_log: Vec::new(),
    }
}

#[test]
fn navigation_commands_normalize_or_fail() {
    let mut c = controls();
    let (outcome, action) = dispatch_command(&mut c, ShellCommand::NavigateTo("example.com".to_string()));
    assert_eq!(outcome, CommandOutcome::NavigationScheduled);
    assert!(matches!(action, EngineAction::Navigate(ref u) if u == "https://example.com/"));
    assert_eq!(c.address_bar_input, "https://example.com/");
    let (outcome, action) = dispatch_command(&mut c, ShellCommand::NavigateTo("chrome://version".to_string()));
    assert_eq!(outcome, CommandOutcome::NavigationFailed);
    assert!(matches!(action, EngineAction::ReportNavigationFailure { ref input, .. } if input == "chrome://version"));
    assert_eq!(c.address_bar_input, "https://example.com/");
}

#[test]
fn panel_and_speech_commands() {
    let mut c = controls();
    assert_eq!(dispatch_command(&mut c, ShellCommand::ToggleLogPanel).0, CommandOutcome::LogPanelVisibility(true));
    assert_eq!(dispatch_command(&mut c, ShellCommand::ToggleLogPanel).0, CommandOutcome::LogPanelVisibility(false));
    assert_eq!(dispatch_command(&mut c, ShellCommand::OpenPermissionPanel).0, CommandOutcome::PermissionPanelVisibility(true));
    dispatch_command(&mut c, ShellCommand::TtsEnqueue("one".to_string()));
    dispatch_command(&mut c, ShellCommand::TtsResume);
    assert!(c.tts_playing);
    assert_eq!(c.tts_queue, vec!["one".to_string()]);
    dispatch_command(&mut c, ShellCommand::TtsStop);
    assert!(!c.tts_playing && c.tts_queue.is_empty());
    dispatch_command(&mut c, ShellCommand::OpenReaderMode("https://r.example/".to_string()));
    assert!(c.reader_mode_open);
    assert_eq!(c.reader_mode_source_url.as_deref(), Some("https://r.example/"));
    assert!(matches!(dispatch_command(&mut c, ShellCommand::ReloadActiveTab).1, EngineAction::Reload));
}

#[test]
fn palette_and_clicks() {
    let entries = palette_entries();
    assert_eq!(entries.len(), 9);
    assert_eq!(entries[0], ("New Tab", PaletteCommand::NewTab));
    assert_eq!(entries[8], ("Toggle Permissions Panel", PaletteCommand::TogglePermissions));
    assert_eq!(next_click_count(1, true, true, true), 2);
    assert_eq!(next_click_count(3, true, true, true), 3);
    assert_eq!(next_click_count(2, false, true, true), 1);
}

#[test]
fn settings_text_and_presets() {
    assert_eq!(empty_to_none("   "), None);
    assert_eq!(empty_to_none("  ws://x  "), Some("ws://x".to_string()));
    let dev = layout_preset_toggles(LayoutPreset::Developer);
    assert!(dev.terminal && dev.bottom_panel_visible && !dev.dashboard);
    assert_eq!(dev.active_diagnostic_tab, DiagnosticTab::Network);
    let archive = layout_preset_toggles(LayoutPreset::Archive);
    assert!(archive.reading_queue && archive.history && archive.workspace_settings);
    assert_eq!(archive.active_diagnostic_tab, DiagnosticTab::KnowledgeGraph);
    assert!(layout_preset_toggles(LayoutPreset::Default).dashboard);
}

#[test]
fn cache_panel_fields_build_the_query() {
    let q = cache_query_from_fields("  example.com ", "", "abc", "   ", "tab-1", " 404 ");
    assert_eq!(q.url.as_deref(), Some("example.com"));
    assert_eq!(q.mime, None);
    assert_eq!(q.hash.as_deref(), Some("abc"));
    assert_eq!(q.session_id, None);
    assert_eq!(q.tab_id.as_deref(), Some("tab-1"));
    assert_eq!(q.status_code, Some(404));
    assert_eq!(cache_query_from_fields("", "", "", "", "", "70000").status_code, None);
    assert_eq!(cache_query_from_fields("", "", "", "", "", "+7").status_code, Some(7));
    assert_eq!(cache_query_from_fields("", "", "", "", "", "ok").status_code, None);
}

#[test]
fn palette_query_filters_labels_ignoring_case() {
    let labels = |q: &str| filter_palette(q).iter().map(|e| e.0).collect::<Vec<_>>();
    assert_eq!(labels("  tab "), vec!["New Tab", "Close Tab"]);
    assert_eq!(labels("GO"), vec!["Go Back", "Go Forward"]);
    assert_eq!(labels("").len(), 9);
    assert!(labels("nothing here").is_empty());
    assert_eq!(filter_palette("reload")[0].1, PaletteCommand::Reload);
}

#[test]
fn commands_append_their_event_log_lines() {
    let mut c = controls();
    dispatch_command(&mut c, ShellCommand::NavigateTo("example.com".to_string()));
    dispatch_command(&mut c, ShellCommand::NavigateTo("   ".to_string()));
    dispatch_command(&mut c, ShellCommand::ReloadActiveTab);
    dispatch_command(&mut c, ShellCommand::ToggleLogPanel);
    dispatch_command(&mut c, ShellCommand::ToggleLogPanel);
    dispatch_command(&mut c, ShellCommand::EngineRequest);
    dispatch_command(&mut c, ShellCommand::TtsEnqueue("hi".to_string()));
    dispatch_command(&mut c, ShellCommand::OpenPermissionPanel);
    assert_eq!(
        c.event_log,
        vec![
            "queued navigation to https://example.com/".to_string(),
            "navigation failed:     (navigation target is empty)".to_string(),
            "queued reload for active tab".to_string(),
            "log panel opened".to_string(),
            "log panel closed".to_string(),
            "tts enqueued".to_string(),
            "permission panel opened".to_string(),
        ]
    );
}

#[test]
fn shell_starts_from_the_configuration() {
    let c = brazen::shell::initial_controls("example.com", "https://home.example/", true, false, vec!["x".to_string()]);
    assert_eq!(c.address_bar_input, "https://example.com/");
    assert!(c.log_panel_open);
    assert!(!c.permission_panel_open);
    assert!(c.tts_queue.is_empty() && !c.tts_playing && !c.reader_mode_open);
    assert_eq!(c.event_log, vec!["x".to_string()]);
    let c = brazen::shell::initial_controls("about:blank", "https://home.example/", false, true, Vec::new());
    assert_eq!(c.address_bar_input, "https://home.example/");
    assert!(c.permission_panel_open);
}

#[test]
fn capability_snapshot_lists_five_decisions() {
    let policy = brazen::permissions::PermissionPolicy::default();
    let snap = brazen::shell::capability_snapshot(&policy);
    let labels: Vec<&str> = snap.iter().map(|(l, _)| l.as_str()).collect();
    assert_eq!(labels, vec!["terminal-exec", "dom-read", "cache-read", "tab-inspect", "ai-tool-use"]);
    assert_eq!(snap[0].1, "Deny");
    assert_eq!(snap[1].1, "Ask");
}

#[test]
fn startup_log_names_the_configuration() {
    let engine = brazen::config::EngineConfig::default();
    let lines = brazen::shell::startup_log("Brazen", "/d", "/l", "/s.json", &engine);
    assert_eq!(
        lines,
        vec![
            "loaded config for Brazen".to_string(),
            "data dir: /d".to_string(),
            "logs dir: /l".to_string(),
            "session path: /s.json".to_string(),
            "engine policy: new-window=same-tab, devtools=false, transport=none".to_string(),
            "engine limits: memory=2048mb cpu=200ms max_tabs=32".to_string(),
            "startup url: https://example.com/".to_string(),
        ]
    );
}
