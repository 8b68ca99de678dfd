//! Typed configuration: the sections of the configuration file, their
//! defaults, and the validation of a loaded configuration.

use vstd::prelude::*;
use crate::text::{owned, str_eq, trim_str, chars_of, concat_chars, string_of};
use crate::navigation::{resolve_startup_url, startup_url};
use crate::urls::{parse_url, url_parse_result};

verus! {
/// Application identity and mode.
#[derive(Debug, Clone)]
pub struct AppConfig {
    pub name: String,
    pub tagline: String,
    pub homepage: String,
    pub mode: String,
}

impl Default for AppConfig {
    fn default() -> (r: Self)
        ensures
            r.name@ == "Brazen"@,
            r.tagline@ == "Capability Browser Platform"@,
            r.homepage@ == "https://example.invalid/brazen"@,
            r.mode@ == "dev"@,
    {
        AppConfig {
            name: owned("Brazen"),
            tagline: owned("Capability Browser Platform"),
            homepage: owned("https://example.invalid/brazen"),
            mode: owned("dev"),
        }
    }
}

/// Log filters and file naming.
#[derive(Debug, Clone)]
pub struct LoggingConfig {
    pub console_filter: String,
    pub file_filter: String,
    pub file_name_prefix: String,
    pub ansi: bool,
}

impl Default for LoggingConfig {
    fn default() -> (r: Self)
        ensures
            r.console_filter@ == "info,brazen=debug"@,
            r.file_filter@ == "debug,brazen=trace"@,
            r.file_name_prefix@ == "brazen.log"@,
            r.ansi == true,
    {
        LoggingConfig {
            console_filter: owned("info,brazen=debug"),
            file_filter: owned("debug,brazen=trace"),
            file_name_prefix: owned("brazen.log"),
            ansi: true,
        }
    }
}

/// Browser engine settings.
#[derive(Debug, Clone)]
pub struct EngineConfig {
    pub process_model: String,
    pub gfx_backend: String,
    pub servo_source: Option<String>,
    pub servo_source_tag: String,
    pub servo_source_rev: String,
    pub startup_url: String,
    pub enable_multiprocess: bool,
    pub new_window_policy: String,
    pub verbose_logging: bool,
    pub render_mode: String,
    pub webrender_backend: String,
    pub frame_pacing: String,
    pub pixel_format: String,
    pub alpha_mode: String,
    pub color_space: String,
    pub debug_bypass_swizzle: bool,
    pub debug_capture_next_frame: bool,
    pub debug_capture_dir: String,
    pub debug_pixel_probe: bool,
    pub debug_pointer_overlay: bool,
    pub devtools_enabled: bool,
    pub devtools_transport: String,
    pub resource_limits: ResourceLimits,
    pub security_warnings: bool,
    pub profile_isolation: bool,
    pub storage_policy: String,
    pub service_worker_policy: String,
}

impl Default for EngineConfig {
    fn default() -> (r: Self)
        ensures
            r.process_model@ == "single-process"@,
            r.gfx_backend@ == "gl"@,
            r.servo_source is None,
            r.servo_source_tag@ == "v0.0.4"@,
            r.servo_source_rev@ == "b73ae02"@,
            r.startup_url@ == "https://example.com"@,
            r.enable_multiprocess == false,
            r.new_window_policy@ == "same-tab"@,
            r.verbose_logging == false,
            r.render_mode@ == "cpu-readback"@,
            r.webrender_backend@ == "gl"@,
            r.frame_pacing@ == "vsync"@,
            r.pixel_format@ == "rgba8"@,
            r.alpha_mode@ == "straight"@,
            r.color_space@ == "srgb"@,
            r.debug_bypass_swizzle == false,
            r.debug_capture_next_frame == false,
            r.debug_capture_dir@ == "logs"@,
            r.debug_pixel_probe == false,
            r.debug_pointer_overlay == false,
            r.devtools_enabled == false,
            r.devtools_transport@ == "none"@,
            r.resource_limits.memory_mb == 2048 && r.resource_limits.cpu_ms == 200 && r.resource_limits.max_tabs == 32,
            r.security_warnings == true,
            r.profile_isolation == false,
            r.storage_policy@ == "profile-scoped"@,
            r.service_worker_policy@ == "default"@,
    {
        EngineConfig {
            process_model: owned("single-process"),
            gfx_backend: owned("gl"),
            servo_source: None,
            servo_source_tag: owned("v0.0.4"),
            servo_source_rev: owned("b73ae02"),
            startup_url: owned("https://example.com"),
            enable_multiprocess: false,
            new_window_policy: owned("same-tab"),
            verbose_logging: false,
            render_mode: owned("cpu-readback"),
            webrender_backend: owned("gl"),
            frame_pacing: owned("vsync"),
            pixel_format: owned("rgba8"),
            alpha_mode: owned("straight"),
            color_space: owned("srgb"),
            debug_bypass_swizzle: false,
            debug_capture_next_frame: false,
            debug_capture_dir: owned("logs"),
            debug_pixel_probe: false,
            debug_pointer_overlay: false,
            devtools_enabled: false,
            devtools_transport: owned("none"),
            resource_limits: ResourceLimits::default(),
            security_warnings: true,
            profile_isolation: false,
            storage_policy: owned("profile-scoped"),
            service_worker_policy: owned("default"),
        }
    }
}

/// Resource limits of the engine.
#[derive(Debug, Clone)]
pub struct ResourceLimits {
    pub memory_mb: u32,
    pub cpu_ms: u32,
    pub max_tabs: u32,
}

impl Default for ResourceLimits {
    fn default() -> (r: Self)
        ensures
            r.memory_mb == 2048,
            r.cpu_ms == 200,
            r.max_tabs == 32,
    {
        ResourceLimits {
            memory_mb: 2048,
            cpu_ms: 200,
            max_tabs: 32,
        }
    }
}

/// Which profile is active.
#[derive(Debug, Clone)]
pub struct ProfileConfig {
    pub active_profile: String,
}

impl Default for ProfileConfig {
    fn default() -> (r: Self)
        ensures
            r.active_profile@ == "default"@,
    {
        ProfileConfig {
            active_profile: owned("default"),
        }
    }
}

/// The automation server.
#[derive(Debug, Clone)]
pub struct AutomationConfig {
    pub enabled: bool,
    pub bind: String,
    pub expose_tab_api: bool,
    pub expose_cache_api: bool,
    /// Whether a connection must present `auth_token`.
    pub require_auth: bool,
    /// The token connections present when authentication is required.
    pub auth_token: Option<String>,
    /// The most messages a connection may send in a minute.
    pub max_messages_per_minute: u32,
    /// The most topics a connection may subscribe to.
    pub max_subscriptions: u32,
    /// The most connections served at once.
    pub max_connections: u32,
}

impl Default for AutomationConfig {
    fn default() -> (r: Self)
        ensures
            r.enabled == false,
            r.bind@ == "ws://127.0.0.1:7942"@,
            r.expose_tab_api == true,
            r.expose_cache_api == false,
            r.require_auth == false,
            r.auth_token is None,
            r.max_messages_per_minute == 120,
            r.max_subscriptions == 32,
            r.max_connections == 8,
    {
        AutomationConfig {
            enabled: false,
            bind: owned("ws://127.0.0.1:7942"),
            expose_tab_api: true,
            expose_cache_api: false,
            require_auth: false,
            auth_token: None,
            max_messages_per_minute: 120,
            max_subscriptions: 32,
            max_connections: 8,
        }
    }
}

/// Content extraction switches.
#[derive(Debug, Clone)]
pub struct ExtractionConfig {
    pub article_processing_enabled: bool,
    pub ontology_capture_enabled: bool,
    pub rss_rehydration_enabled: bool,
}

impl Default for ExtractionConfig {
    fn default() -> (r: Self)
        ensures
            r.article_processing_enabled == false,
            r.ontology_capture_enabled == false,
            r.rss_rehydration_enabled == false,
    {
        ExtractionConfig {
            article_processing_enabled: false,
            ontology_capture_enabled: false,
            rss_rehydration_enabled: false,
        }
    }
}

/// Media and reading settings.
#[derive(Debug, Clone)]
pub struct MediaConfig {
    pub default_tts_provider: String,
    pub auto_queue_reader_mode: bool,
}

impl Default for MediaConfig {
    fn default() -> (r: Self)
        ensures
            r.default_tts_provider@ == "none"@,
            r.auto_queue_reader_mode == false,
    {
        MediaConfig {
            default_tts_provider: owned("none"),
            auto_queue_reader_mode: false,
        }
    }
}

/// Feature switches of the shell.
#[derive(Debug, Clone)]
pub struct FeatureFlags {
    pub shell_status_panel: bool,
    pub cache_inspector: bool,
    pub automation_server: bool,
    pub servo_backend: bool,
}

impl Default for FeatureFlags {
    fn default() -> (r: Self)
        ensures
            r.shell_status_panel == true,
            r.cache_inspector == true,
            r.automation_server == false,
            r.servo_backend == false,
    {
        FeatureFlags {
            shell_status_panel: true,
            cache_inspector: true,
            automation_server: false,
            servo_backend: false,
        }
    }
}

/// Where a runtime directory lives: the platform default, or a path.
#[derive(Debug, Clone, PartialEq, Eq)]
pub enum DirectoryConfig {
    Default,
    Path(String),
}

impl Default for DirectoryConfig {
    fn default() -> (r: Self)
        ensures
            r == DirectoryConfig::Default,
    {
        DirectoryConfig::Default
    }
}

/// The configuration value of a directory setting.
pub open spec fn directory_value(d: DirectoryConfig) -> Seq<char> {
    match d {
        DirectoryConfig::Default => "default"@,
        DirectoryConfig::Path(p) => p@,
    }
}

impl DirectoryConfig {
    /// Reads a configuration value: "default" is the platform default, any
    /// other value a path.
    pub fn from_config_value(value: &str) -> (r: Self)
        ensures
            value@ == "default"@ ==> r == DirectoryConfig::Default,
            value@ != "default"@ ==> (r matches DirectoryConfig::Path(p) && p@ == value@),
    {
        if str_eq(value, "default") {
            DirectoryConfig::Default
        } else {
            DirectoryConfig::Path(owned(value))
        }
    }

    /// The configuration value of the setting.
    pub fn config_value(&self) -> (r: String)
        ensures
            r@ == directory_value(*self),
    {
        match self {
            DirectoryConfig::Default => owned("default"),
            DirectoryConfig::Path(p) => p.clone(),
        }
    }
}

/// Writing a directory setting and reading it back gives it back, except
/// for a path that is spelled "default".
pub proof fn lemma_directory_value_round_trip(d: DirectoryConfig)
    requires
        match d {
            DirectoryConfig::Path(p) => p@ != "default"@,
            DirectoryConfig::Default => true,
        },
    ensures
        directory_value(d) == "default"@ <==> d == DirectoryConfig::Default,
{
}

/// The runtime directories.
#[derive(Debug, Clone)]
pub struct DirectoryRootsConfig {
    pub data_dir: DirectoryConfig,
    pub logs_dir: DirectoryConfig,
    pub profiles_dir: DirectoryConfig,
    pub cache_dir: DirectoryConfig,
    pub downloads_dir: DirectoryConfig,
    pub crash_dumps_dir: DirectoryConfig,
}

impl Default for DirectoryRootsConfig {
    fn default() -> (r: Self)
        ensures
            r.data_dir == DirectoryConfig::Default,
            r.logs_dir == DirectoryConfig::Default,
            r.profiles_dir == DirectoryConfig::Default,
            r.cache_dir == DirectoryConfig::Default,
            r.downloads_dir == DirectoryConfig::Default,
            r.crash_dumps_dir == DirectoryConfig::Default,
    {
        DirectoryRootsConfig {
            data_dir: DirectoryConfig::Default,
            logs_dir: DirectoryConfig::Default,
            profiles_dir: DirectoryConfig::Default,
            cache_dir: DirectoryConfig::Default,
            downloads_dir: DirectoryConfig::Default,
            crash_dumps_dir: DirectoryConfig::Default,
        }
    }
}

/// Capture settings that override the cache settings for one host.
#[derive(Debug, Clone)]
pub struct HostCapturePolicy {
    pub capture_mode: Option<String>,
    pub capture_body: Option<bool>,
    pub max_entry_bytes: Option<u64>,
    pub mime_allowlist: Vec<String>,
    pub mime_denylist: Vec<String>,
}

impl Default for HostCapturePolicy {
    fn default() -> (r: Self)
        ensures
            r.capture_mode is None,
            r.capture_body is None,
            r.max_entry_bytes is None,
            r.mime_allowlist@.len() == 0,
            r.mime_denylist@.len() == 0,
    {
        HostCapturePolicy {
            capture_mode: None,
            capture_body: None,
            max_entry_bytes: None,
            mime_allowlist: Vec::new(),
            mime_denylist: Vec::new(),
        }
    }
}

/// The asset cache. `host_overrides` holds the per-host policies in
/// ascending order of their host keys.
#[derive(Debug, Clone)]
pub struct CacheConfig {
    pub metadata_capture: bool,
    pub selective_body_capture: bool,
    pub archive_replay_mode: bool,
    pub max_entry_bytes: u64,
    pub third_party_mode: String,
    pub mime_allowlist: Vec<String>,
    pub mime_denylist: Vec<String>,
    pub host_allowlist: Vec<String>,
    pub host_denylist: Vec<String>,
    pub host_overrides: Vec<(String, HostCapturePolicy)>,
    pub authenticated_only: bool,
    pub capture_html_json_css_js: bool,
    pub capture_media: bool,
    pub capture_mode: String,
    pub dedupe_bodies: bool,
    pub gc_max_entries: u32,
    pub max_total_bytes: u64,
    pub gc_strategy: String,
    pub storage_mode: String,
}

/// The views of a list of strings.
pub open spec fn strings_view(v: Seq<String>) -> Seq<Seq<char>> {
    Seq::new(v.len(), |i: int| v[i]@)
}

/// The MIME types whose bodies are captured by default.
pub open spec fn default_mime_allowlist() -> Seq<Seq<char>> {
    seq!["text/html"@, "application/json"@, "text/css"@, "application/javascript"@, "image/png"@]
}

impl Default for CacheConfig {
    fn default() -> (r: Self)
        ensures
            r.metadata_capture,
            r.selective_body_capture,
            !r.archive_replay_mode,
            r.max_entry_bytes == 10 * 1024 * 1024,
            r.third_party_mode@ == "metadata-only"@,
            strings_view(r.mime_allowlist@) == default_mime_allowlist(),
            r.mime_denylist@.len() == 0,
            r.host_allowlist@.len() == 0,
            r.host_denylist@.len() == 0,
            r.host_overrides@.len() == 0,
            !r.authenticated_only,
            r.capture_html_json_css_js,
            r.capture_media,
            r.capture_mode@ == "selective"@,
            r.dedupe_bodies,
            r.gc_max_entries == 5000,
            r.max_total_bytes == 0,
            r.gc_strategy@ == "oldest"@,
            r.storage_mode@ == "disk"@,
    {
        let mime_allowlist = vec![
            owned("text/html"),
            owned("application/json"),
            owned("text/css"),
            owned("application/javascript"),
            owned("image/png"),
        ];
        assert(strings_view(mime_allowlist@) =~= default_mime_allowlist());
        CacheConfig {
            metadata_capture: true,
            selective_body_capture: true,
            archive_replay_mode: false,
            max_entry_bytes: 10 * 1024 * 1024,
            third_party_mode: owned("metadata-only"),
            mime_allowlist,
            mime_denylist: Vec::new(),
            host_allowlist: Vec::new(),
            host_denylist: Vec::new(),
            host_overrides: Vec::new(),
            authenticated_only: false,
            capture_html_json_css_js: true,
            capture_media: true,
            capture_mode: owned("selective"),
            dedupe_bodies: true,
            gc_max_entries: 5000,
            max_total_bytes: 0,
            gc_strategy: owned("oldest"),
            storage_mode: owned("disk"),
        }
    }
}

/// Why a configuration was refused.
#[derive(Debug, Clone, PartialEq, Eq)]
pub enum ConfigError {
    Validation(String),
}

/// `s` is one of `options`.
pub open spec fn one_of(s: Seq<char>, options: Seq<Seq<char>>) -> bool {
    options.contains(s)
}

/// The first rule that the configuration sections break, if any. The
/// window size, which is a floating-point setting, is checked before this.
pub open spec fn sections_problem(
    app: AppConfig,
    engine: EngineConfig,
    cache: CacheConfig,
    profiles: ProfileConfig,
    automation: AutomationConfig,
) -> Option<Seq<char>> {
    if cache.max_entry_bytes == 0 {
        Some("cache.max_entry_bytes must be greater than zero"@)
    } else if !one_of(cache.storage_mode@, seq!["memory"@, "disk"@, "archive"@]) {
        Some("cache.storage_mode must be memory, disk, or archive"@)
    } else if crate::text::trim(profiles.active_profile@).len() == 0 {
        Some("profiles.active_profile must be non-empty"@)
    } else if !one_of(app.mode@, seq!["dev"@, "prod"@]) {
        Some("app.mode must be dev or prod"@)
    } else if engine.resource_limits.memory_mb == 0 {
        Some("engine.resource_limits.memory_mb must be greater than zero"@)
    } else if startup_url(engine.startup_url@) is Err {
        Some("engine.startup_url is invalid: "@ + startup_url(engine.startup_url@)->Err_0)
    } else if engine.resource_limits.max_tabs == 0 {
        Some("engine.resource_limits.max_tabs must be greater than zero"@)
    } else if !one_of(engine.new_window_policy@, seq!["same-tab"@, "new-tab"@, "block"@]) {
        Some("engine.new_window_policy must be same-tab, new-tab, or block"@)
    } else if engine.devtools_enabled && !one_of(engine.devtools_transport@, seq!["local-socket"@, "tcp"@]) {
        Some("engine.devtools_transport must be local-socket or tcp when devtools are enabled"@)
    } else if !one_of(engine.render_mode@, seq!["cpu-readback"@, "gpu-texture"@]) {
        Some("engine.render_mode must be cpu-readback or gpu-texture"@)
    } else if !one_of(engine.pixel_format@, seq!["rgba8"@, "bgra8"@]) {
        Some("engine.pixel_format must be rgba8 or bgra8"@)
    } else if !one_of(engine.alpha_mode@, seq!["straight"@, "premultiplied"@]) {
        Some("engine.alpha_mode must be straight or premultiplied"@)
    } else if !one_of(engine.color_space@, seq!["srgb"@, "linear"@]) {
        Some("engine.color_space must be srgb or linear"@)
    } else if !one_of(engine.frame_pacing@, seq!["vsync"@, "manual"@, "on-demand"@]) {
        Some("engine.frame_pacing must be vsync, manual, or on-demand"@)
    } else if automation.enabled {
        match url_parse_result(automation.bind@) {
            Err(e) => Some("automation.bind must be a valid URL: "@ + e),
            Ok(p) => if p.1 != "ws"@ && p.1 != "wss"@ {
                Some("automation.bind must use ws or wss"@)
            } else {
                None
            },
        }
    } else {
        None
    }
}

/// Whether `s` equals one of two literals.
fn is_one_of2(s: &str, a: &str, b: &str) -> (r: bool)
    ensures
        r == one_of(s@, seq![a@, b@]),
{
    let r = str_eq(s, a) || str_eq(s, b);
    proof {
        let o = seq![a@, b@];
        if s@ == a@ { assert(o[0] == a@); }
        if s@ == b@ { assert(o[1] == b@); }
        if o.contains(s@) {
            let i = choose|i: int| 0 <= i < o.len() && o[i] == s@;
            assert(i == 0 || i == 1);
        }
    }
    r
}

/// Whether `s` equals one of three literals.
fn is_one_of3(s: &str, a: &str, b: &str, c: &str) -> (r: bool)
    ensures
        r == one_of(s@, seq![a@, b@, c@]),
{
    let r = str_eq(s, a) || str_eq(s, b) || str_eq(s, c);
    proof {
        let o = seq![a@, b@, c@];
        if s@ == a@ { assert(o[0] == a@); }
        if s@ == b@ { assert(o[1] == b@); }
        if s@ == c@ { assert(o[2] == c@); }
        if o.contains(s@) {
            let i = choose|i: int| 0 <= i < o.len() && o[i] == s@;
            assert(i == 0 || i == 1 || i == 2);
        }
    }
    r
}

fn invalid(message: &str) -> (r: Result<(), ConfigError>)
    ensures
        r matches Err(ConfigError::Validation(e)) && e@ == message@,
{
    Err(ConfigError::Validation(owned(message)))
}

fn invalid_with(message: &str, reason: &String) -> (r: Result<(), ConfigError>)
    ensures
        r matches Err(ConfigError::Validation(e)) && e@ == message@ + reason@,
{
    let a = chars_of(message);
    let b = chars_of(reason.as_str());
    let c = concat_chars(a.as_slice(), b.as_slice());
    Err(ConfigError::Validation(string_of(c.as_slice())))
}

/// Checks the configuration sections, reporting the first rule broken.
pub fn validate_sections(
    app: &AppConfig,
    engine: &EngineConfig,
    cache: &CacheConfig,
    profiles: &ProfileConfig,
    automation: &AutomationConfig,
) -> (r: Result<(), ConfigError>)
    ensures
        match sections_problem(*app, *engine, *cache, *profiles, *automation) {
            None => r is Ok,
            Some(m) => r matches Err(ConfigError::Validation(e)) && e@ == m,
        },
{
    if cache.max_entry_bytes == 0 {
        return invalid("cache.max_entry_bytes must be greater than zero");
    }
    if !is_one_of3(cache.storage_mode.as_str(), "memory", "disk", "archive") {
        return invalid("cache.storage_mode must be memory, disk, or archive");
    }
    if trim_str(profiles.active_profile.as_str()).len() == 0 {
        return invalid("profiles.active_profile must be non-empty");
    }
    if !is_one_of2(app.mode.as_str(), "dev", "prod") {
        return invalid("app.mode must be dev or prod");
    }
    if engine.resource_limits.memory_mb == 0 {
        return invalid("engine.resource_limits.memory_mb must be greater than zero");
    }
    if let Err(reason) = resolve_startup_url(engine.startup_url.as_str()) {
        return invalid_with("engine.startup_url is invalid: ", &reason);
    }
    if engine.resource_limits.max_tabs == 0 {
        return invalid("engine.resource_limits.max_tabs must be greater than zero");
    }
    if !is_one_of3(engine.new_window_policy.as_str(), "same-tab", "new-tab", "block") {
        return invalid("engine.new_window_policy must be same-tab, new-tab, or block");
    }
    if engine.devtools_enabled && !is_one_of2(engine.devtools_transport.as_str(), "local-socket", "tcp") {
        return invalid("engine.devtools_transport must be local-socket or tcp when devtools are enabled");
    }
    if !is_one_of2(engine.render_mode.as_str(), "cpu-readback", "gpu-texture") {
        return invalid("engine.render_mode must be cpu-readback or gpu-texture");
    }
    if !is_one_of2(engine.pixel_format.as_str(), "rgba8", "bgra8") {
        return invalid("engine.pixel_format must be rgba8 or bgra8");
    }
    if !is_one_of2(engine.alpha_mode.as_str(), "straight", "premultiplied") {
        return invalid("engine.alpha_mode must be straight or premultiplied");
    }
    if !is_one_of2(engine.color_space.as_str(), "srgb", "linear") {
        return invalid("engine.color_space must be srgb or linear");
    }
    if !is_one_of3(engine.frame_pacing.as_str(), "vsync", "manual", "on-demand") {
        return invalid("engine.frame_pacing must be vsync, manual, or on-demand");
    }
    if automation.enabled {
        match parse_url(automation.bind.as_str()) {
            Err(e) => {
                return invalid_with("automation.bind must be a valid URL: ", &e);
            },
            Ok(p) => {
                if !str_eq(p.scheme.as_str(), "ws") && !str_eq(p.scheme.as_str(), "wss") {
                    return invalid("automation.bind must use ws or wss");
                }
            },
        }
    }
    Ok(())
}

/// The text of the configuration file written on first start.
pub open spec fn default_config_text() -> Seq<char> {
    "# Brazen configuration. Every key is optional; missing keys take their defaults.\n\n[app]\nname = \"Brazen\"\ntagline = \"Capability Browser Platform\"\nhomepage = \"https://example.invalid/brazen\"\nmode = \"dev\"\n\n[window]\ninitial_width = 1440.0\ninitial_height = 920.0\nmin_width = 960.0\nmin_height = 640.0\nshow_log_panel_on_startup = true\nshow_permission_panel_on_startup = false\n\n[logging]\nconsole_filter = \"info,brazen=debug\"\nfile_filter = \"debug,brazen=trace\"\nfile_name_prefix = \"brazen.log\"\nansi = true\n\n[engine]\nprocess_model = \"single-process\"\ngfx_backend = \"gl\"\nservo_source_tag = \"v0.0.4\"\nservo_source_rev = \"b73ae02\"\nstartup_url = \"https://example.com\"\nenable_multiprocess = false\nnew_window_policy = \"same-tab\"\nverbose_logging = false\nrender_mode = \"cpu-readback\"\nwebrender_backend = \"gl\"\nframe_pacing = \"vsync\"\npixel_format = \"rgba8\"\nalpha_mode = \"straight\"\ncolor_space = \"srgb\"\ndevtools_enabled = false\ndevtools_transport = \"none\"\nsecurity_warnings = true\nprofile_isolation = false\nstorage_policy = \"profile-scoped\"\nservice_worker_policy = \"default\"\n\n[engine.resource_limits]\nmemory_mb = 2048\ncpu_ms = 200\nmax_tabs = 32\n\n[directories]\ndata_dir = \"default\"\nlogs_dir = \"default\"\nprofiles_dir = \"default\"\ncache_dir = \"default\"\ndownloads_dir = \"default\"\ncrash_dumps_dir = \"default\"\n\n[profiles]\nactive_profile = \"default\"\n\n[cache]\nmetadata_capture = true\nselective_body_capture = true\narchive_replay_mode = false\nmax_entry_bytes = 10485760\nthird_party_mode = \"metadata-only\"\nmime_allowlist = [\"text/html\", \"application/json\", \"text/css\", \"application/javascript\", \"image/png\"]\nhost_allowlist = []\nhost_denylist = []\nauthenticated_only = false\ncapture_html_json_css_js = true\ncapture_media = true\ngc_max_entries = 5000\nstorage_mode = \"disk\"\n\n[permissions]\ndefault = \"ask\"\n\n[permissions.capabilities]\nterminal-exec = \"deny\"\nterminal-output-read = \"ask\"\ndom-read = \"ask\"\ncache-read = \"ask\"\ntab-inspect = \"ask\"\nai-tool-use = \"ask\"\nvirtual-resource-mount = \"deny\"\nfs-read = \"ask\"\nfs-write = \"deny\"\n\n[automation]\nenabled = false\nbind = \"ws://127.0.0.1:7942\"\nexpose_tab_api = true\nexpose_cache_api = false\nrequire_auth = false\nmax_messages_per_minute = 120\nmax_subscriptions = 32\nmax_connections = 8\n\n[extraction]\narticle_processing_enabled = false\nontology_capture_enabled = false\nrss_rehydration_enabled = false\n\n[media]\ndefault_tts_provider = \"none\"\nauto_queue_reader_mode = false\n\n[features]\nshell_status_panel = true\ncache_inspector = true\nautomation_server = false\n"@
}

/// The configuration file written on first start: every section with its
/// default values.
pub fn default_config_toml() -> (r: &'static str)
    ensures
        r@ == default_config_text(),
{
    "# Brazen configuration. Every key is optional; missing keys take their defaults.\n\n[app]\nname = \"Brazen\"\ntagline = \"Capability Browser Platform\"\nhomepage = \"https://example.invalid/brazen\"\nmode = \"dev\"\n\n[window]\ninitial_width = 1440.0\ninitial_height = 920.0\nmin_width = 960.0\nmin_height = 640.0\nshow_log_panel_on_startup = true\nshow_permission_panel_on_startup = false\n\n[logging]\nconsole_filter = \"info,brazen=debug\"\nfile_filter = \"debug,brazen=trace\"\nfile_name_prefix = \"brazen.log\"\nansi = true\n\n[engine]\nprocess_model = \"single-process\"\ngfx_backend = \"gl\"\nservo_source_tag = \"v0.0.4\"\nservo_source_rev = \"b73ae02\"\nstartup_url = \"https://example.com\"\nenable_multiprocess = false\nnew_window_policy = \"same-tab\"\nverbose_logging = false\nrender_mode = \"cpu-readback\"\nwebrender_backend = \"gl\"\nframe_pacing = \"vsync\"\npixel_format = \"rgba8\"\nalpha_mode = \"straight\"\ncolor_space = \"srgb\"\ndevtools_enabled = false\ndevtools_transport = \"none\"\nsecurity_warnings = true\nprofile_isolation = false\nstorage_policy = \"profile-scoped\"\nservice_worker_policy = \"default\"\n\n[engine.resource_limits]\nmemory_mb = 2048\ncpu_ms = 200\nmax_tabs = 32\n\n[directories]\ndata_dir = \"default\"\nlogs_dir = \"default\"\nprofiles_dir = \"default\"\ncache_dir = \"default\"\ndownloads_dir = \"default\"\ncrash_dumps_dir = \"default\"\n\n[profiles]\nactive_profile = \"default\"\n\n[cache]\nmetadata_capture = true\nselective_body_capture = true\narchive_replay_mode = false\nmax_entry_bytes = 10485760\nthird_party_mode = \"metadata-only\"\nmime_allowlist = [\"text/html\", \"application/json\", \"text/css\", \"application/javascript\", \"image/png\"]\nhost_allowlist = []\nhost_denylist = []\nauthenticated_only = false\ncapture_html_json_css_js = true\ncapture_media = true\ngc_max_entries = 5000\nstorage_mode = \"disk\"\n\n[permissions]\ndefault = \"ask\"\n\n[permissions.capabilities]\nterminal-exec = \"deny\"\nterminal-output-read = \"ask\"\ndom-read = \"ask\"\ncache-read = \"ask\"\ntab-inspect = \"ask\"\nai-tool-use = \"ask\"\nvirtual-resource-mount = \"deny\"\nfs-read = \"ask\"\nfs-write = \"deny\"\n\n[automation]\nenabled = false\nbind = \"ws://127.0.0.1:7942\"\nexpose_tab_api = true\nexpose_cache_api = false\nrequire_auth = false\nmax_messages_per_minute = 120\nmax_subscriptions = 32\nmax_connections = 8\n\n[extraction]\narticle_processing_enabled = false\nontology_capture_enabled = false\nrss_rehydration_enabled = false\n\n[media]\ndefault_tts_provider = \"none\"\nauto_queue_reader_mode = false\n\n[features]\nshell_status_panel = true\ncache_inspector = true\nautomation_server = false\n"
}

} // verus!
