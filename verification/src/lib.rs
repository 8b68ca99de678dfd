//! Brazen core: the policy, parsing and state logic of the Brazen browser
//! shell, with contracts proved by Verus.

pub mod text;
pub mod assoc;
pub mod permissions;
pub mod engine;
pub mod rendering;
pub mod urls;
pub mod navigation;
pub mod numbers;
pub mod cli_cache;
pub mod config;
pub mod mounts;
pub mod cache;
pub mod cli_introspect;
pub mod automation;
pub mod profile_store;
pub mod bootstrap;
pub mod extraction;
pub mod shell;
pub mod config_merge;
pub mod cache_gc;
pub mod shell_sync;
pub mod shortcuts;
pub mod transfer;
