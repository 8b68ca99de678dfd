use brazen::config::{
    default_config_toml, validate_sections, AppConfig, AutomationConfig, CacheConfig, ConfigError, DirectoryConfig,
    EngineConfig, FeatureFlags, ProfileConfig,
};
use brazen::engine::{AlphaMode, ColorSpace, EngineLoadStatus, EngineStatus, PixelFormat};

#[test]
fn defaults_validate() {
    let r = validate_sections(
        &AppConfig::default(),
        &EngineConfig::default(),
        &CacheConfig::default(),
        &ProfileConfig::default(),
        &AutomationConfig::default(),
    );
    assert_eq!(r, Ok(()));
    assert!(default_config_toml().contains("[automation]"));
    assert!(FeatureFlags::default().shell_status_panel);
}

#[test]
fn validation_reports_first_broken_rule() {
    let cache = CacheConfig { storage_mode: "tape".to_string(), ..CacheConfig::default() };
    let r = validate_sections(&AppConfig::default(), &EngineConfig::default(), &cache, &ProfileConfig::default(), &AutomationConfig::default());
    assert_eq!(r, Err(ConfigError::Validation("cache.storage_mode must be memory, disk, or archive".to_string())));
    let mut automation = AutomationConfig::default();
    automation.enabled = true;
    automation.bind = "http://127.0.0.1:1".to_string();
    let r = validate_sections(&AppConfig::default(), &EngineConfig::default(), &CacheConfig::default(), &ProfileConfig::default(), &automation);
    assert_eq!(r, Err(ConfigError::Validation("automation.bind must use ws or wss".to_string())));
    let profiles = ProfileConfig { active_profile: "  ".to_string(), ..ProfileConfig::default() };
    let r = validate_sections(&AppConfig::default(), &EngineConfig::default(), &CacheConfig::default(), &profiles, &AutomationConfig::default());
    assert_eq!(r, Err(ConfigError::Validation("profiles.active_profile must be non-empty".to_string())));
}

#[test]
fn directory_values_round_trip() {
    let d = DirectoryConfig::from_config_value("default");
    assert_eq!(d.config_value(), "default");
    let p = DirectoryConfig::from_config_value("/var/lib/brazen");
    assert_eq!(p.config_value(), "/var/lib/brazen");
}

#[test]
fn engine_names_round_trip() {
    assert_eq!(PixelFormat::from_value(PixelFormat::Bgra8.as_str()), PixelFormat::Bgra8);
    assert_eq!(PixelFormat::from_value("weird"), PixelFormat::Rgba8);
    assert_eq!(AlphaMode::from_value(AlphaMode::Premultiplied.as_str()), AlphaMode::Premultiplied);
    assert_eq!(ColorSpace::from_value(ColorSpace::Linear.as_str()), ColorSpace::Linear);
    assert_eq!(EngineLoadStatus::HeadParsed.as_str(), "HeadParsed");
    assert_eq!(EngineStatus::Error("boot failed".to_string()).display_text(), "Error: boot failed");
    assert_eq!(EngineStatus::Ready.display_text(), "Ready");
}
