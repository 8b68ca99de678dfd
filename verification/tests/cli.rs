use brazen::cli_cache::{parse_cache_args, mime_of, store_fetched};
use brazen::cli_introspect::{IntrospectArgs, IntrospectCommand, IntrospectParseError};
use brazen::cache::{AssetStore, StorageMode};
use brazen::config::CacheConfig;

#[test]
fn parse_cache_args_accepts_url_and_flags() {
    let args = vec![
        "cache".to_string(),
        "https://example.com".to_string(),
        "--profile".to_string(),
        "dev".to_string(),
        "--timeout".to_string(),
        "12".to_string(),
        "--stats".to_string(),
        "--insecure".to_string(),
    ];
    let options = parse_cache_args(&args).unwrap();
    assert_eq!(options.url, "https://example.com");
    assert_eq!(options.profile.as_deref(), Some("dev"));
    assert_eq!(options.timeout_secs, 12);
    assert!(options.stats);
    assert!(options.insecure);
}

#[test]
fn parse_cache_args_defaults_and_errors() {
    let ok = parse_cache_args(&["cache".to_string(), "https://a.test".to_string()]).unwrap();
    assert_eq!(ok.timeout_secs, 30);
    assert_eq!(ok.profile, None);
    assert!(!ok.stats && !ok.insecure);
    assert_eq!(parse_cache_args(&["fetch".to_string()]).unwrap_err(), "expected `cache <url>`");
    assert_eq!(parse_cache_args(&["cache".to_string()]).unwrap_err(), "missing url");
    assert_eq!(
        parse_cache_args(&["cache".to_string(), "u".to_string(), "--timeout".to_string()]).unwrap_err(),
        "missing timeout value"
    );
    assert_eq!(
        parse_cache_args(&["cache".to_string(), "u".to_string(), "--timeout".to_string(), "ten".to_string()]).unwrap_err(),
        "timeout must be integer seconds"
    );
    assert_eq!(
        parse_cache_args(&["cache".to_string(), "u".to_string(), "--verbose".to_string()]).unwrap_err(),
        "unrecognized argument `--verbose`"
    );
}

#[test]
fn clap_parses_list_windows() {
    let cli = IntrospectArgs::parse_from(&["introspect", "list-windows"]);
    assert!(matches!(cli.command, IntrospectCommand::ListWindows));
}

#[test]
fn clap_parses_list_tabs() {
    let cli = IntrospectArgs::parse_from(&["introspect", "list-tabs"]);
    assert!(matches!(cli.command, IntrospectCommand::ListTabs));
}

#[test]
fn clap_parses_logs_follow() {
    let cli = IntrospectArgs::parse_from(&["introspect", "logs", "--follow"]);
    assert!(matches!(cli.command, IntrospectCommand::Logs { follow: true }));
}

#[test]
fn clap_parses_get_dom_selector() {
    let cli = IntrospectArgs::parse_from(&["introspect", "get-dom", "--selector", "body"]);
    assert!(matches!(
        cli.command,
        IntrospectCommand::GetDom { selector } if selector == "body"
    ));
}

#[test]
fn clap_parses_screenshot_output() {
    let cli = IntrospectArgs::parse_from(&["introspect", "screenshot", "--output", "x.png"]);
    assert!(matches!(
        cli.command,
        IntrospectCommand::Screenshot { output } if output == "x.png"
    ));
}

#[test]
fn introspect_defaults_globals_and_option_forms() {
    let cli = IntrospectArgs::parse_from(&["introspect", "-u", "ws://h:1", "--token=abc", "get-dom"]);
    assert_eq!(cli.url.as_deref(), Some("ws://h:1"));
    assert_eq!(cli.token.as_deref(), Some("abc"));
    assert!(matches!(cli.command, IntrospectCommand::GetDom { selector } if selector == "body"));
    let shot = IntrospectArgs::parse_from(&["introspect", "screenshot"]);
    assert!(matches!(shot.command, IntrospectCommand::Screenshot { output } if output == "screenshot.png"));
    let short = IntrospectArgs::parse_from(&["introspect", "screenshot", "-oout.png"]);
    assert!(matches!(short.command, IntrospectCommand::Screenshot { output } if output == "out.png"));
    let export = IntrospectArgs::parse_from(&["introspect", "profile-export", "p1", "-o", "b.tgz", "--include-cache-blobs"]);
    assert!(matches!(export.command,
        IntrospectCommand::ProfileExport { id, output, include_cache_blobs: true } if id == "p1" && output == "b.tgz"));
    let js = IntrospectArgs::parse_from(&["introspect", "evaluate-js", "--", "-1"]);
    assert!(matches!(js.command, IntrospectCommand::EvaluateJs { script } if script == "-1"));
}

#[test]
fn introspect_refuses_bad_command_lines() {
    assert_eq!(IntrospectArgs::try_parse_from(&["introspect"]), Err(IntrospectParseError::MissingCommand));
    assert_eq!(
        IntrospectArgs::try_parse_from(&["introspect", "reboot"]),
        Err(IntrospectParseError::UnknownCommand("reboot".to_string()))
    );
    assert_eq!(
        IntrospectArgs::try_parse_from(&["introspect", "logs", "--follow", "-f"]),
        Err(IntrospectParseError::Repeated("--follow".to_string()))
    );
    assert_eq!(
        IntrospectArgs::try_parse_from(&["introspect", "get-dom", "--selector"]),
        Err(IntrospectParseError::MissingValue("--selector".to_string()))
    );
    assert_eq!(
        IntrospectArgs::try_parse_from(&["introspect", "list-tabs", "--all"]),
        Err(IntrospectParseError::UnexpectedArgument("--all".to_string()))
    );
    assert_eq!(
        IntrospectArgs::try_parse_from(&["introspect", "profile-create"]),
        Err(IntrospectParseError::MissingArgument("<ID>".to_string()))
    );
    assert_eq!(
        IntrospectArgs::try_parse_from(&["introspect", "profile-import", "p"]),
        Err(IntrospectParseError::MissingArgument("--input".to_string()))
    );
    assert_eq!(
        IntrospectArgs::try_parse_from(&["introspect", "shutdown", "now"]),
        Err(IntrospectParseError::UnexpectedArgument("now".to_string()))
    );
    assert_eq!(IntrospectArgs::try_parse_from(&["introspect", "--help"]), Err(IntrospectParseError::HelpRequested));
}

#[test]
fn mime_of_content_type_strips_parameters() {
    assert_eq!(mime_of(Some("text/html; charset=utf-8")), "text/html");
    assert_eq!(mime_of(Some("  image/png ")), "image/png");
    assert_eq!(mime_of(None), "application/octet-stream");
}

#[test]
fn store_fetched_records_or_refuses() {
    let mut store = AssetStore::new(CacheConfig::default(), "default".to_string(), Vec::new(), Vec::new());
    let refused = store_fetched(&mut store, "https://a.test/", 404, None, Vec::new(), b"x", "t0".to_string(), "t1".to_string());
    assert_eq!(refused.unwrap_err(), "cache fetch returned status 404");
    assert_eq!(store.entries().len(), 0);
    let ok = store_fetched(
        &mut store,
        "https://a.test/",
        200,
        Some("text/html; charset=utf-8"),
        vec![("Content-Type".to_string(), "text/html".to_string())],
        b"hello",
        "2024-01-01T00:00:00Z".to_string(),
        "2024-01-01T00:00:01Z".to_string(),
    )
    .unwrap();
    assert_eq!(ok.entry_count, 1);
    assert_eq!(ok.storage_mode, StorageMode::Disk);
    assert_eq!(ok.metadata.mime, "text/html");
    assert_eq!(ok.metadata.session_id.as_deref(), Some("cli"));
    assert_eq!(ok.metadata.duration_ms, Some(1000));
    assert_eq!(ok.metadata.asset_id, "asset-1");
}
