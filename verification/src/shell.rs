//! The browser shell's own state machine: what each shell command does to
//! the shell's controls and what it asks of the engine, the command palette,
//! and the workspace settings that are plain choices.

use vstd::prelude::*;
use crate::navigation::{normalize_url_input, normalized_url, resolve_startup_url, startup_url};
use crate::config::{EngineConfig, strings_view};
use crate::numbers::{decimal_string, decimal_digits};
use crate::permissions::{Capability, PermissionDecision, PermissionPolicy, capability_label};
use crate::text::{trim, trim_str, string_of, chars_of, concat_chars, owned};
use crate::cache::{AssetQuery, to_lowercase, lowercase_of, text_contains};
use crate::text::contains_seq;
use crate::numbers::{parse_u64, parse_u64_spec};
use crate::urls::opt_view;

verus! {

/// The colour theme of the shell.
#[derive(Debug, Clone, Copy, PartialEq, Eq)]
pub enum UiTheme {
    System,
    Light,
    Dark,
    Brazen,
}

/// How tightly the shell lays out its widgets.
#[derive(Debug, Clone, Copy, PartialEq, Eq)]
pub enum UiDensity {
    Compact,
    Comfortable,
}

/// A ready-made arrangement of the workspace panels.
#[derive(Debug, Clone, Copy, PartialEq, Eq)]
pub enum LayoutPreset {
    Default,
    Developer,
    Archive,
}

/// The pages of the settings panel.
#[derive(Debug, Clone, Copy, PartialEq, Eq)]
pub enum SettingsTab {
    Layout,
    Features,
    DevTools,
    Automation,
    Appearance,
}

/// The pages of the left panel.
#[derive(Debug, Clone, Copy, PartialEq, Eq)]
pub enum LeftPanelTab {
    Workspace,
    Assets,
}

/// The pages of the diagnostics panel.
#[derive(Debug, Clone, Copy, PartialEq, Eq)]
pub enum DiagnosticTab {
    Logs,
    Network,
    Dom,
    Health,
    Downloads,
    Automation,
    Cache,
    Capabilities,
    KnowledgeGraph,
}

/// What the command palette offers.
#[derive(Debug, Clone, Copy, PartialEq, Eq)]
pub enum PaletteCommand {
    NewTab,
    CloseTab,
    Reload,
    StopLoading,
    GoBack,
    GoForward,
    FocusAddressBar,
    ToggleLogs,
    TogglePermissions,
}

/// The palette's entries in the order shown, with their labels.
pub open spec fn palette_spec() -> Seq<(Seq<char>, PaletteCommand)> {
    seq![
        ("New Tab"@, PaletteCommand::NewTab),
        ("Close Tab"@, PaletteCommand::CloseTab),
        ("Reload"@, PaletteCommand::Reload),
        ("Stop Loading"@, PaletteCommand::StopLoading),
        ("Go Back"@, PaletteCommand::GoBack),
        ("Go Forward"@, PaletteCommand::GoForward),
        ("Focus Address Bar"@, PaletteCommand::FocusAddressBar),
        ("Toggle Logs Panel"@, PaletteCommand::ToggleLogs),
        ("Toggle Permissions Panel"@, PaletteCommand::TogglePermissions),
    ]
}

/// The palette's entries in the order shown.
pub fn palette_entries() -> (r: Vec<(&'static str, PaletteCommand)>)
    ensures
        r@.len() == palette_spec().len(),
        forall|i: int| 0 <= i < r@.len() ==> (#[trigger] r@[i]).0@ == palette_spec()[i].0 && r@[i].1 == palette_spec()[i].1,
{
    let r: Vec<(&'static str, PaletteCommand)> = vec![
        ("New Tab", PaletteCommand::NewTab),
        ("Close Tab", PaletteCommand::CloseTab),
        ("Reload", PaletteCommand::Reload),
        ("Stop Loading", PaletteCommand::StopLoading),
        ("Go Back", PaletteCommand::GoBack),
        ("Go Forward", PaletteCommand::GoForward),
        ("Focus Address Bar", PaletteCommand::FocusAddressBar),
        ("Toggle Logs Panel", PaletteCommand::ToggleLogs),
        ("Toggle Permissions Panel", PaletteCommand::TogglePermissions),
    ];
    r
}

/// What a shell command came to.
#[derive(Debug, Clone, PartialEq, Eq)]
pub enum CommandOutcome {
    NavigationScheduled,
    NavigationFailed,
    ReloadScheduled,
    StopScheduled,
    BackScheduled,
    ForwardScheduled,
    LogPanelVisibility(bool),
    PermissionPanelVisibility(bool),
    AutomationCommandQueued,
}

/// A command to the shell. The commands that only hand work to the engine
/// (DOM queries, screenshots, scripts, DOM interaction, text extraction)
/// are one kind here: the engine carries them out, and the shell answers
/// that they were queued.
#[derive(Debug, Clone)]
pub enum ShellCommand {
    NavigateTo(String),
    ReloadActiveTab,
    StopLoading,
    GoBack,
    GoForward,
    ToggleLogPanel,
    OpenPermissionPanel,
    EngineRequest,
    TtsPause,
    TtsResume,
    TtsStop,
    TtsEnqueue(String),
    OpenReaderMode(String),
}

/// What the engine is asked to do next.
#[derive(Debug, Clone)]
pub enum EngineAction {
    Nothing,
    Navigate(String),
    ReportNavigationFailure { input: String, reason: String },
    Reload,
    Stop,
    GoBack,
    GoForward,
    CarryOutRequest,
}

/// The parts of the shell's state that shell commands change.
#[derive(Debug, Clone)]
pub struct ShellControls {
    pub address_bar_input: String,
    pub log_panel_open: bool,
    pub permission_panel_open: bool,
    pub tts_playing: bool,
    pub tts_queue: Vec<String>,
    pub reader_mode_open: bool,
    pub reader_mode_source_url: Option<String>,
    /// The shell's event log, oldest line first.
    pub event_log: Vec<String>,
}

/// The controls as plain values.
pub struct ControlsView {
    pub address_bar_input: Seq<char>,
    pub log_panel_open: bool,
    pub permission_panel_open: bool,
    pub tts_playing: bool,
    pub tts_queue: Seq<Seq<char>>,
    pub reader_mode_open: bool,
    pub reader_mode_source_url: Option<Seq<char>>,
    pub event_log: Seq<Seq<char>>,
}

impl ShellControls {
    pub open spec fn view(&self) -> ControlsView {
        ControlsView {
            address_bar_input: self.address_bar_input@,
            log_panel_open: self.log_panel_open,
            permission_panel_open: self.permission_panel_open,
            tts_playing: self.tts_playing,
            tts_queue: Seq::new(self.tts_queue@.len(), |i: int| self.tts_queue@[i]@),
            reader_mode_open: self.reader_mode_open,
            reader_mode_source_url: match self.reader_mode_source_url { Some(u) => Some(u@), None => None },
            event_log: Seq::new(self.event_log@.len(), |i: int| self.event_log@[i]@),
        }
    }
}

/// What a command does to the controls other than the event log, and the
/// command's outcome. Navigation puts the normalized address in the address
/// bar (an input that is no address changes nothing); the log panel
/// toggles; the permission panel opens; pausing or stopping speech stops it
/// (and stopping empties its queue); resuming starts it; enqueuing adds
/// text at the end of the queue; reader mode opens on the given address.
pub open spec fn command_effect(c: ControlsView, cmd: ShellCommand) -> (ControlsView, CommandOutcome) {
    match cmd {
        ShellCommand::NavigateTo(url) => match normalized_url(url@) {
            Ok(n) => (ControlsView { address_bar_input: n, ..c }, CommandOutcome::NavigationScheduled),
            Err(_) => (c, CommandOutcome::NavigationFailed),
        },
        ShellCommand::ReloadActiveTab => (c, CommandOutcome::ReloadScheduled),
        ShellCommand::StopLoading => (c, CommandOutcome::StopScheduled),
        ShellCommand::GoBack => (c, CommandOutcome::BackScheduled),
        ShellCommand::GoForward => (c, CommandOutcome::ForwardScheduled),
        ShellCommand::ToggleLogPanel => (ControlsView { log_panel_open: !c.log_panel_open, ..c },
            CommandOutcome::LogPanelVisibility(!c.log_panel_open)),
        ShellCommand::OpenPermissionPanel => (ControlsView { permission_panel_open: true, ..c },
            CommandOutcome::PermissionPanelVisibility(true)),
        ShellCommand::EngineRequest => (c, CommandOutcome::AutomationCommandQueued),
        ShellCommand::TtsPause => (ControlsView { tts_playing: false, ..c }, CommandOutcome::AutomationCommandQueued),
        ShellCommand::TtsResume => (ControlsView { tts_playing: true, ..c }, CommandOutcome::AutomationCommandQueued),
        ShellCommand::TtsStop => (ControlsView { tts_playing: false, tts_queue: Seq::empty(), ..c },
            CommandOutcome::AutomationCommandQueued),
        ShellCommand::TtsEnqueue(t) => (ControlsView { tts_queue: c.tts_queue.push(t@), ..c },
            CommandOutcome::AutomationCommandQueued),
        ShellCommand::OpenReaderMode(url) => (ControlsView { reader_mode_open: true, reader_mode_source_url: Some(url@), ..c },
            CommandOutcome::AutomationCommandQueued),
    }
}

/// The line a command adds to the event log; a request carried out by the
/// engine adds none.
pub open spec fn command_log_line(c: ControlsView, cmd: ShellCommand) -> Option<Seq<char>> {
    match cmd {
        ShellCommand::NavigateTo(url) => match normalized_url(url@) {
            Ok(n) => Some("queued navigation to "@ + n),
            Err(e) => Some("navigation failed: "@ + url@ + " ("@ + e + ")"@),
        },
        ShellCommand::ReloadActiveTab => Some("queued reload for active tab"@),
        ShellCommand::StopLoading => Some("queued stop for active tab"@),
        ShellCommand::GoBack => Some("queued back navigation"@),
        ShellCommand::GoForward => Some("queued forward navigation"@),
        ShellCommand::ToggleLogPanel => Some(if !c.log_panel_open { "log panel opened"@ } else { "log panel closed"@ }),
        ShellCommand::OpenPermissionPanel => Some("permission panel opened"@),
        ShellCommand::EngineRequest => None,
        ShellCommand::TtsPause => Some("tts paused"@),
        ShellCommand::TtsResume => Some("tts resumed"@),
        ShellCommand::TtsStop => Some("tts stopped"@),
        ShellCommand::TtsEnqueue(_) => Some("tts enqueued"@),
        ShellCommand::OpenReaderMode(_) => Some("reader mode opened"@),
    }
}

/// A log with one more line, when there is one.
pub open spec fn logged(log: Seq<Seq<char>>, line: Option<Seq<char>>) -> Seq<Seq<char>> {
    match line {
        Some(l) => log.push(l),
        None => log,
    }
}

/// The controls after a command, and the command's outcome: the command's
/// effect, with its line added to the event log.
pub open spec fn controls_after(c: ControlsView, cmd: ShellCommand) -> (ControlsView, CommandOutcome) {
    let (e, outcome) = command_effect(c, cmd);
    (ControlsView { event_log: logged(c.event_log, command_log_line(c, cmd)), ..e }, outcome)
}

/// Adds a line to the controls' event log.
fn record_event(controls: &mut ShellControls, line: String)
    ensures
        final(controls).view() == (ControlsView { event_log: old(controls).view().event_log.push(line@), ..old(controls).view() }),
{
    controls.event_log.push(line);
    assert(controls.view().event_log =~= old(controls).view().event_log.push(line@));
}

/// Joins two pieces of text.
fn join2(a: &str, b: &str) -> (r: String)
    ensures
        r@ == a@ + b@,
{
    let x = chars_of(a);
    let y = chars_of(b);
    let all = concat_chars(x.as_slice(), y.as_slice());
    string_of(all.as_slice())
}

/// Joins three pieces of text.
fn join3(a: &str, b: &str, c: &str) -> (r: String)
    ensures
        r@ == a@ + b@ + c@,
{
    let x = chars_of(a);
    let y = chars_of(b);
    let z = chars_of(c);
    let xy = concat_chars(x.as_slice(), y.as_slice());
    let all = concat_chars(xy.as_slice(), z.as_slice());
    string_of(all.as_slice())
}

/// Carries out a shell command on the controls and says what the engine
/// must do: navigate to the normalized address (or report why the input
/// is not one), reload, stop, go back or forward, or carry out a request.
pub fn dispatch_command(controls: &mut ShellControls, command: ShellCommand) -> (r: (CommandOutcome, EngineAction))
    ensures
        r.0 == controls_after(old(controls).view(), command).1,
        final(controls).view() == controls_after(old(controls).view(), command).0,
        match command {
            ShellCommand::NavigateTo(url) => match normalized_url(url@) {
                Ok(n) => (r.1 matches EngineAction::Navigate(u) && u@ == n),
                Err(e) => (r.1 matches EngineAction::ReportNavigationFailure { input, reason } && input == url && reason@ == e),
            },
            ShellCommand::ReloadActiveTab => r.1 is Reload,
            ShellCommand::StopLoading => r.1 is Stop,
            ShellCommand::GoBack => r.1 is GoBack,
            ShellCommand::GoForward => r.1 is GoForward,
            ShellCommand::EngineRequest => r.1 is CarryOutRequest,
            _ => r.1 is Nothing,
        },
{
    match command {
        ShellCommand::NavigateTo(url) => match normalize_url_input(url.as_str()) {
            Ok(normalized) => {
                controls.address_bar_input = normalized.clone();
                let line = join2("queued navigation to ", normalized.as_str());
                record_event(controls, line);
                (CommandOutcome::NavigationScheduled, EngineAction::Navigate(normalized))
            },
            Err(reason) => {
                let head = join3("navigation failed: ", url.as_str(), " (");
                let line = join3(head.as_str(), reason.as_str(), ")");
                record_event(controls, line);
                (CommandOutcome::NavigationFailed, EngineAction::ReportNavigationFailure { input: url, reason })
            },
        },
        ShellCommand::ReloadActiveTab => {
            record_event(controls, owned("queued reload for active tab"));
            (CommandOutcome::ReloadScheduled, EngineAction::Reload)
        },
        ShellCommand::StopLoading => {
            record_event(controls, owned("queued stop for active tab"));
            (CommandOutcome::StopScheduled, EngineAction::Stop)
        },
        ShellCommand::GoBack => {
            record_event(controls, owned("queued back navigation"));
            (CommandOutcome::BackScheduled, EngineAction::GoBack)
        },
        ShellCommand::GoForward => {
            record_event(controls, owned("queued forward navigation"));
            (CommandOutcome::ForwardScheduled, EngineAction::GoForward)
        },
        ShellCommand::ToggleLogPanel => {
            controls.log_panel_open = !controls.log_panel_open;
            let line = if controls.log_panel_open { owned("log panel opened") } else { owned("log panel closed") };
            record_event(controls, line);
            (CommandOutcome::LogPanelVisibility(controls.log_panel_open), EngineAction::Nothing)
        },
        ShellCommand::OpenPermissionPanel => {
            controls.permission_panel_open = true;
            record_event(controls, owned("permission panel opened"));
            (CommandOutcome::PermissionPanelVisibility(true), EngineAction::Nothing)
        },
        ShellCommand::EngineRequest => (CommandOutcome::AutomationCommandQueued, EngineAction::CarryOutRequest),
        ShellCommand::TtsPause => {
            controls.tts_playing = false;
            record_event(controls, owned("tts paused"));
            (CommandOutcome::AutomationCommandQueued, EngineAction::Nothing)
        },
        ShellCommand::TtsResume => {
            controls.tts_playing = true;
            record_event(controls, owned("tts resumed"));
            (CommandOutcome::AutomationCommandQueued, EngineAction::Nothing)
        },
        ShellCommand::TtsStop => {
            controls.tts_playing = false;
            controls.tts_queue.clear();
            assert(controls.view().tts_queue =~= Seq::<Seq<char>>::empty());
            record_event(controls, owned("tts stopped"));
            (CommandOutcome::AutomationCommandQueued, EngineAction::Nothing)
        },
        ShellCommand::TtsEnqueue(text) => {
            controls.tts_queue.push(text);
            assert(controls.view().tts_queue =~= old(controls).view().tts_queue.push(text@));
            record_event(controls, owned("tts enqueued"));
            (CommandOutcome::AutomationCommandQueued, EngineAction::Nothing)
        },
        ShellCommand::OpenReaderMode(url) => {
            controls.reader_mode_open = true;
            controls.reader_mode_source_url = Some(url);
            record_event(controls, owned("reader mode opened"));
            (CommandOutcome::AutomationCommandQueued, EngineAction::Nothing)
        },
    }
}

/// The address bar a shell starts with: the configured startup address when
/// it names one, else the homepage.
pub open spec fn startup_address(startup: Seq<char>, homepage: Seq<char>) -> Seq<char> {
    match startup_url(startup) {
        Ok(Some(u)) => u,
        _ => homepage,
    }
}

/// The controls a shell starts with: the startup address (or the homepage)
/// in the address bar, the two panels as configured, speech stopped with an
/// empty queue, reader mode closed, and the given start-up lines as the
/// event log.
pub fn initial_controls(startup: &str, homepage: &str, show_log: bool, show_permissions: bool, event_log: Vec<String>) -> (r: ShellControls)
    ensures
        r.view() == (ControlsView {
            address_bar_input: startup_address(startup@, homepage@),
            log_panel_open: show_log,
            permission_panel_open: show_permissions,
            tts_playing: false,
            tts_queue: Seq::empty(),
            reader_mode_open: false,
            reader_mode_source_url: None,
            event_log: strings_view(event_log@),
        }),
{
    let address = match resolve_startup_url(startup) {
        Ok(Some(u)) => u,
        _ => owned(homepage),
    };
    let r = ShellControls {
        address_bar_input: address,
        log_panel_open: show_log,
        permission_panel_open: show_permissions,
        tts_playing: false,
        tts_queue: Vec::new(),
        reader_mode_open: false,
        reader_mode_source_url: None,
        event_log,
    };
    assert(r.view().tts_queue =~= Seq::<Seq<char>>::empty());
    assert(r.view().event_log =~= strings_view(event_log@));
    r
}

/// The name a decision is shown by in the shell's capability list.
pub open spec fn decision_shown(d: PermissionDecision) -> Seq<char> {
    match d {
        PermissionDecision::Allow => "Allow"@,
        PermissionDecision::Ask => "Ask"@,
        PermissionDecision::Deny => "Deny"@,
    }
}

/// The capabilities the shell lists at start, in order.
pub open spec fn snapshot_capabilities() -> Seq<Capability> {
    seq![Capability::TerminalExec, Capability::DomRead, Capability::CacheRead, Capability::TabInspect, Capability::AiToolUse]
}

/// The shell's capability list: the label of each listed capability and
/// the name of the policy's decision for it.
pub fn capability_snapshot(policy: &PermissionPolicy) -> (r: Vec<(String, String)>)
    ensures
        r@.len() == snapshot_capabilities().len(),
        forall|i: int| 0 <= i < r@.len() ==> (#[trigger] r@[i]).0@ == capability_label(snapshot_capabilities()[i])
            && r@[i].1@ == decision_shown(policy.spec_decision_for(snapshot_capabilities()[i])),
{
    let caps: Vec<Capability> = vec![
        Capability::TerminalExec,
        Capability::DomRead,
        Capability::CacheRead,
        Capability::TabInspect,
        Capability::AiToolUse,
    ];
    assert(caps@ =~= snapshot_capabilities());
    let mut r: Vec<(String, String)> = Vec::new();
    let mut i: usize = 0;
    while i < caps.len()
        invariant
            i <= caps@.len(),
            caps@ == snapshot_capabilities(),
            r@.len() == i,
            forall|j: int| 0 <= j < i ==> (#[trigger] r@[j]).0@ == capability_label(caps@[j])
                && r@[j].1@ == decision_shown(policy.spec_decision_for(caps@[j])),
        decreases caps@.len() - i,
    {
        let c = caps[i];
        let shown = match policy.decision_for(&c) {
            PermissionDecision::Allow => owned("Allow"),
            PermissionDecision::Ask => owned("Ask"),
            PermissionDecision::Deny => owned("Deny"),
        };
        r.push((owned(c.label()), shown));
        i = i + 1;
    }
    r
}

/// How a flag is written in the event log.
pub open spec fn flag_text(b: bool) -> Seq<char> {
    if b { "true"@ } else { "false"@ }
}

/// The lines the event log starts with: the application, the data, log
/// and session locations, the engine's window policy and devtools, its
/// limits, and the startup address (or that there is none).
pub open spec fn startup_log_lines(
    app_name: Seq<char>,
    data_dir: Seq<char>,
    logs_dir: Seq<char>,
    session_path: Seq<char>,
    engine: EngineConfig,
) -> Seq<Seq<char>> {
    seq![
        "loaded config for "@ + app_name,
        "data dir: "@ + data_dir,
        "logs dir: "@ + logs_dir,
        "session path: "@ + session_path,
        "engine policy: new-window="@ + engine.new_window_policy@ + ", devtools="@ + flag_text(engine.devtools_enabled)
            + ", transport="@ + engine.devtools_transport@,
        "engine limits: memory="@ + decimal_digits(engine.resource_limits.memory_mb as nat) + "mb cpu="@
            + decimal_digits(engine.resource_limits.cpu_ms as nat) + "ms max_tabs="@
            + decimal_digits(engine.resource_limits.max_tabs as nat),
        "startup url: "@ + match startup_url(engine.startup_url@) {
            Ok(Some(u)) => u,
            _ => "about:blank (disabled)"@,
        },
    ]
}

/// Appends the characters of `s`.
fn push_text(buf: &mut Vec<char>, s: &str)
    ensures
        final(buf)@ == old(buf)@ + s@,
{
    let c = chars_of(s);
    let all = concat_chars(buf.as_slice(), c.as_slice());
    *buf = all;
}

/// Appends characters.
fn push_chars(buf: &mut Vec<char>, c: &Vec<char>)
    ensures
        final(buf)@ == old(buf)@ + c@,
{
    let all = concat_chars(buf.as_slice(), c.as_slice());
    *buf = all;
}

/// The lines the event log starts with.
pub fn startup_log(app_name: &str, data_dir: &str, logs_dir: &str, session_path: &str, engine: &EngineConfig) -> (r: Vec<String>)
    ensures
        strings_view(r@) == startup_log_lines(app_name@, data_dir@, logs_dir@, session_path@, *engine),
{
    let l1 = join2("loaded config for ", app_name);
    let l2 = join2("data dir: ", data_dir);
    let l3 = join2("logs dir: ", logs_dir);
    let l4 = join2("session path: ", session_path);
    let mut b5: Vec<char> = Vec::new();
    push_text(&mut b5, "engine policy: new-window=");
    push_text(&mut b5, engine.new_window_policy.as_str());
    push_text(&mut b5, ", devtools=");
    push_text(&mut b5, if engine.devtools_enabled { "true" } else { "false" });
    push_text(&mut b5, ", transport=");
    push_text(&mut b5, engine.devtools_transport.as_str());
    let l5 = string_of(b5.as_slice());
    let mut b6: Vec<char> = Vec::new();
    push_text(&mut b6, "engine limits: memory=");
    push_chars(&mut b6, &decimal_string(engine.resource_limits.memory_mb as u64));
    push_text(&mut b6, "mb cpu=");
    push_chars(&mut b6, &decimal_string(engine.resource_limits.cpu_ms as u64));
    push_text(&mut b6, "ms max_tabs=");
    push_chars(&mut b6, &decimal_string(engine.resource_limits.max_tabs as u64));
    let l6 = string_of(b6.as_slice());
    let l7 = match resolve_startup_url(engine.startup_url.as_str()) {
        Ok(Some(u)) => join2("startup url: ", u.as_str()),
        _ => join2("startup url: ", "about:blank (disabled)"),
    };
    let r: Vec<String> = vec![l1, l2, l3, l4, l5, l6, l7];
    assert(strings_view(r@) =~= startup_log_lines(app_name@, data_dir@, logs_dir@, session_path@, *engine));
    r
}

/// Toggling the log panel twice leaves it as it was.
pub proof fn lemma_toggle_log_panel_twice(c: ControlsView)
    ensures
        controls_after(controls_after(c, ShellCommand::ToggleLogPanel).0, ShellCommand::ToggleLogPanel).0.log_panel_open
            == c.log_panel_open,
{
}

/// How many clicks a press counts as: one more than the last (up to a
/// triple click) when it follows the last press of the same button closely
/// in time and place, else a single click.
pub open spec fn click_count_after(previous: u8, close_in_time: bool, close_in_place: bool, same_button: bool) -> u8 {
    if close_in_time && close_in_place && same_button {
        if previous + 1 < 3 { (previous + 1) as u8 } else { 3 }
    } else {
        1
    }
}

/// Counts a press as a single, double or triple click.
pub fn next_click_count(previous: u8, close_in_time: bool, close_in_place: bool, same_button: bool) -> (r: u8)
    ensures
        r == click_count_after(previous, close_in_time, close_in_place, same_button),
        1 <= r <= 3,
{
    if close_in_time && close_in_place && same_button {
        if previous < 2 { previous + 1 } else { 3 }
    } else {
        1
    }
}


/// A settings field's text: trimmed, and none when nothing is left.
pub fn empty_to_none(value: &str) -> (r: Option<String>)
    ensures
        match r {
            Some(s) => trim(value@).len() > 0 && s@ == trim(value@),
            None => trim(value@).len() == 0,
        },
{
    let t = trim_str(value);
    if t.len() == 0 {
        None
    } else {
        Some(string_of(t.as_slice()))
    }
}

/// A filter field of the cache panel: its trimmed text, none when empty.
pub open spec fn field_filter(text: Seq<char>) -> Option<Seq<char>> {
    if trim(text).len() == 0 { None } else { Some(trim(text)) }
}

/// The status filter of the cache panel: the trimmed text read as a
/// 16-bit number, none when it is not one.
pub open spec fn status_filter(text: Seq<char>) -> Option<u16> {
    match parse_u64_spec(trim(text)) {
        Some(n) => if n <= u16::MAX { Some(n as u16) } else { None },
        None => None,
    }
}

/// The query the cache panel's filter fields describe.
pub fn cache_query_from_fields(url: &str, mime: &str, hash: &str, session_id: &str, tab_id: &str, status: &str) -> (r: AssetQuery)
    ensures
        opt_view(r.url) == field_filter(url@),
        opt_view(r.mime) == field_filter(mime@),
        opt_view(r.hash) == field_filter(hash@),
        opt_view(r.session_id) == field_filter(session_id@),
        opt_view(r.tab_id) == field_filter(tab_id@),
        r.status_code == status_filter(status@),
{
    let t = trim_str(status);
    let status_code = match parse_u64(t.as_slice()) {
        Some(n) => if n <= 65535 { Some(n as u16) } else { None },
        None => None,
    };
    AssetQuery {
        url: empty_to_none(url),
        mime: empty_to_none(mime),
        hash: empty_to_none(hash),
        session_id: empty_to_none(session_id),
        tab_id: empty_to_none(tab_id),
        status_code,
    }
}

/// The palette entries whose label holds the query, trimmed, ignoring case,
/// in the order shown.
pub open spec fn palette_matches(entries: Seq<(Seq<char>, PaletteCommand)>, query: Seq<char>) -> Seq<(Seq<char>, PaletteCommand)>
    decreases entries.len(),
{
    if entries.len() == 0 {
        Seq::empty()
    } else {
        let rest = palette_matches(entries.drop_last(), query);
        if contains_seq(lowercase_of(entries.last().0), lowercase_of(trim(query))) {
            rest.push(entries.last())
        } else {
            rest
        }
    }
}

/// The palette entries that the text typed in the palette picks; Enter
/// runs the first.
pub fn filter_palette(query: &str) -> (r: Vec<(&'static str, PaletteCommand)>)
    ensures
        r@.len() == palette_matches(palette_spec(), query@).len(),
        forall|i: int| 0 <= i < r@.len() ==> (#[trigger] r@[i]).0@ == palette_matches(palette_spec(), query@)[i].0
            && r@[i].1 == palette_matches(palette_spec(), query@)[i].1,
{
    let entries = palette_entries();
    let t = trim_str(query);
    let trimmed = string_of(t.as_slice());
    let needle = to_lowercase(trimmed.as_str());
    let ghost spec_entries = palette_spec();
    let mut out: Vec<(&'static str, PaletteCommand)> = Vec::new();
    let mut i: usize = 0;
    while i < entries.len()
        invariant
            i <= entries@.len(),
            entries@.len() == spec_entries.len(),
            spec_entries == palette_spec(),
            forall|j: int| 0 <= j < entries@.len() ==> (#[trigger] entries@[j]).0@ == spec_entries[j].0 && entries@[j].1 == spec_entries[j].1,
            needle@ == lowercase_of(trim(query@)),
            out@.len() == palette_matches(spec_entries.subrange(0, i as int), query@).len(),
            forall|j: int| 0 <= j < out@.len() ==> (#[trigger] out@[j]).0@ == palette_matches(spec_entries.subrange(0, i as int), query@)[j].0
                && out@[j].1 == palette_matches(spec_entries.subrange(0, i as int), query@)[j].1,
        decreases entries@.len() - i,
    {
        let entry = entries[i];
        let label = to_lowercase(entry.0);
        assert(spec_entries.subrange(0, i as int + 1).drop_last() =~= spec_entries.subrange(0, i as int));
        if text_contains(&label, &needle) {
            out.push(entry);
        }
        i = i + 1;
    }
    assert(spec_entries.subrange(0, entries@.len() as int) =~= spec_entries);
    out
}

/// Which workspace panels are shown, and the diagnostics page in front.
#[derive(Debug, Clone, Copy, PartialEq, Eq)]
pub struct PanelToggles {
    pub sidebar_visible: bool,
    pub bookmarks: bool,
    pub history: bool,
    pub reading_queue: bool,
    pub reader_mode: bool,
    pub tts_controls: bool,
    pub workspace_settings: bool,
    pub terminal: bool,
    pub dashboard: bool,
    pub find_panel_open: bool,
    pub bottom_panel_visible: bool,
    pub active_diagnostic_tab: DiagnosticTab,
}

/// The panels a preset shows: the default shows the sidebar and dashboard;
/// the developer preset the terminal and the network diagnostics below;
/// the archive preset every reading panel, bookmarks, history, settings and
/// the knowledge graph below.
pub open spec fn preset_toggles(p: LayoutPreset) -> PanelToggles {
    match p {
        LayoutPreset::Default => PanelToggles {
            sidebar_visible: true, bookmarks: false, history: false, reading_queue: false, reader_mode: false,
            tts_controls: false, workspace_settings: false, terminal: false, dashboard: true, find_panel_open: false,
            bottom_panel_visible: false, active_diagnostic_tab: DiagnosticTab::Logs,
        },
        LayoutPreset::Developer => PanelToggles {
            sidebar_visible: true, bookmarks: false, history: false, reading_queue: false, reader_mode: false,
            tts_controls: false, workspace_settings: false, terminal: true, dashboard: false, find_panel_open: false,
            bottom_panel_visible: true, active_diagnostic_tab: DiagnosticTab::Network,
        },
        LayoutPreset::Archive => PanelToggles {
            sidebar_visible: true, bookmarks: true, history: true, reading_queue: true, reader_mode: true,
            tts_controls: true, workspace_settings: true, terminal: false, dashboard: false, find_panel_open: false,
            bottom_panel_visible: true, active_diagnostic_tab: DiagnosticTab::KnowledgeGraph,
        },
    }
}

/// The panels a preset shows.
pub fn layout_preset_toggles(preset: LayoutPreset) -> (r: PanelToggles)
    ensures
        r == preset_toggles(preset),
{
    match preset {
        LayoutPreset::Default => PanelToggles {
            sidebar_visible: true, bookmarks: false, history: false, reading_queue: false, reader_mode: false,
            tts_controls: false, workspace_settings: false, terminal: false, dashboard: true, find_panel_open: false,
            bottom_panel_visible: false, active_diagnostic_tab: DiagnosticTab::Logs,
        },
        LayoutPreset::Developer => PanelToggles {
            sidebar_visible: true, bookmarks: false, history: false, reading_queue: false, reader_mode: false,
            tts_controls: false, workspace_settings: false, terminal: true, dashboard: false, find_panel_open: false,
            bottom_panel_visible: true, active_diagnostic_tab: DiagnosticTab::Network,
        },
        LayoutPreset::Archive => PanelToggles {
            sidebar_visible: true, bookmarks: true, history: true, reading_queue: true, reader_mode: true,
            tts_controls: true, workspace_settings: true, terminal: false, dashboard: false, find_panel_open: false,
            bottom_panel_visible: true, active_diagnostic_tab: DiagnosticTab::KnowledgeGraph,
        },
    }
}

} // verus!
