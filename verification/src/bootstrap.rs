//! Start-up: where the configuration comes from, why start-up can fail, and
//! how a profile's stored settings overlay the configuration.

use vstd::prelude::*;
use crate::config::{AutomationConfig, ConfigError};
use crate::permissions::{
    Capability, PermissionPolicy, DomainTables, tables_view, table_get, grant_get, apply_grants,
};

verus! {

/// How to start: the configuration file to read, or the platform's default.
#[derive(Debug, Clone)]
pub struct BootstrapOptions {
    pub config_path: Option<String>,
}

impl BootstrapOptions {
    /// Start from the given configuration file.
    pub fn from_path(path: String) -> (r: Self)
        ensures
            r.config_path == Some(path),
    {
        BootstrapOptions { config_path: Some(path) }
    }
}

/// Why start-up failed.
#[derive(Debug, Clone, PartialEq, Eq)]
pub enum BootstrapError {
    /// The configuration could not be read or is invalid.
    Config(ConfigError),
    /// The platform's directories could not be found or made.
    Paths(String),
    /// Logging could not be set up.
    Logging(String),
}

/// The automation settings once a profile's stored settings overlay the
/// configured ones: everything from the profile, except whether automation
/// is enabled and where it listens, which stay as configured.
pub open spec fn overlaid_automation(configured: AutomationConfig, stored: AutomationConfig) -> AutomationConfig {
    AutomationConfig { enabled: configured.enabled, bind: configured.bind, ..stored }
}

/// Overlays what a profile stored on the configuration: its permission
/// grants replace the configured per-domain decisions they name, and its
/// automation settings replace the configured ones but for `enabled` and
/// `bind`. What the profile did not store is left as configured.
pub fn apply_profile_overrides(
    permissions: &mut PermissionPolicy,
    automation: &mut AutomationConfig,
    grants: Option<&DomainTables>,
    settings: Option<AutomationConfig>,
)
    ensures
        final(permissions).default == old(permissions).default,
        final(permissions).capabilities == old(permissions).capabilities,
        forall|dom: Seq<char>, c: Capability| #[trigger] table_get(tables_view(final(permissions).domain_overrides@), dom, c)
            == match grants {
                Some(g) => match grant_get(tables_view(g@), dom, c) {
                    Some(x) => Some(x),
                    None => table_get(tables_view(old(permissions).domain_overrides@), dom, c),
                },
                None => table_get(tables_view(old(permissions).domain_overrides@), dom, c),
            },
        *final(automation) == match settings {
            Some(s) => overlaid_automation(*old(automation), s),
            None => *old(automation),
        },
{
    if let Some(g) = grants {
        apply_grants(&mut permissions.domain_overrides, g);
    }
    if let Some(stored) = settings {
        let enabled = automation.enabled;
        let bind = automation.bind.clone();
        *automation = stored;
        automation.enabled = enabled;
        automation.bind = bind;
    }
}

} // verus!
