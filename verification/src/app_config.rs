//! Application configuration.
//!
//! These settings arrive from a YAML file or from the environment; the
//! embedding application reads and parses those sources and hands the
//! parsed values to [`AppConfig::apply_overrides`].

use vstd::prelude::*;

verus! {

/// Application configuration that can be loaded from YAML and
/// overridden by environment variables.
#[derive(Debug, Clone, Copy, PartialEq, Eq, Structural)]
pub struct AppConfig {
    pub persistence: PersistenceSettings,
}

/// The persistence-related settings.
#[derive(Debug, Clone, Copy, PartialEq, Eq, Structural)]
pub struct PersistenceSettings {
    /// Enable/disable database persistence
    pub enabled: bool,
    /// Auto-save interval in seconds
    pub auto_save_interval: u64,
    /// Shutdown timeout in seconds
    pub shutdown_timeout: u64,
    /// Enable write coalescing to batch database operations
    pub write_coalescing: bool,
    /// Write coalescing delay in milliseconds
    pub coalescing_delay_ms: u64,
}

fn default_true() -> (r: bool)
    ensures
        r,
{
    true
}

fn default_auto_save_interval() -> (r: u64)
    ensures
        r == 30,
{
    30
}

fn default_shutdown_timeout() -> (r: u64)
    ensures
        r == 10,
{
    10
}

fn default_coalescing_delay() -> (r: u64)
    ensures
        r == 1000,
{
    1000
}

/// The default persistence settings, as a single value.
pub open spec fn spec_default_settings() -> PersistenceSettings {
    PersistenceSettings {
        enabled: true,
        auto_save_interval: 30,
        shutdown_timeout: 10,
        write_coalescing: true,
        coalescing_delay_ms: 1000,
    }
}

impl Default for PersistenceSettings {
    /// Persistence on, saving every 30 seconds, coalescing writes over
    /// one second, waiting up to 10 seconds at shutdown.
    fn default() -> (r: PersistenceSettings)
        ensures
            r == spec_default_settings(),
    {
        PersistenceSettings {
            enabled: default_true(),
            auto_save_interval: default_auto_save_interval(),
            shutdown_timeout: default_shutdown_timeout(),
            write_coalescing: default_true(),
            coalescing_delay_ms: default_coalescing_delay(),
        }
    }
}

impl Default for AppConfig {
    /// The default persistence settings.
    fn default() -> (r: AppConfig)
        ensures
            r == (AppConfig { persistence: spec_default_settings() }),
    {
        AppConfig { persistence: PersistenceSettings::default() }
    }
}

impl AppConfig {
    /// Apply the overrides read from the environment: each setting that
    /// was present replaces the loaded one, each absent one is kept.
    pub fn apply_overrides(
        &mut self,
        enabled: Option<bool>,
        auto_save_interval: Option<u64>,
        shutdown_timeout: Option<u64>,
        write_coalescing: Option<bool>,
        coalescing_delay_ms: Option<u64>,
    )
        ensures
            final(self).persistence.enabled == match enabled {
                Option::Some(v) => v,
                Option::None => old(self).persistence.enabled,
            },
            final(self).persistence.auto_save_interval == match auto_save_interval {
                Option::Some(v) => v,
                Option::None => old(self).persistence.auto_save_interval,
            },
            final(self).persistence.shutdown_timeout == match shutdown_timeout {
                Option::Some(v) => v,
                Option::None => old(self).persistence.shutdown_timeout,
            },
            final(self).persistence.write_coalescing == match write_coalescing {
                Option::Some(v) => v,
                Option::None => old(self).persistence.write_coalescing,
            },
            final(self).persistence.coalescing_delay_ms == match coalescing_delay_ms {
                Option::Some(v) => v,
                Option::None => old(self).persistence.coalescing_delay_ms,
            },
    {
        if let Option::Some(v) = enabled {
            self.persistence.enabled = v;
        }
        if let Option::Some(v) = auto_save_interval {
            self.persistence.auto_save_interval = v;
        }
        if let Option::Some(v) = shutdown_timeout {
            self.persistence.shutdown_timeout = v;
        }
        if let Option::Some(v) = write_coalescing {
            self.persistence.write_coalescing = v;
        }
        if let Option::Some(v) = coalescing_delay_ms {
            self.persistence.coalescing_delay_ms = v;
        }
    }
}

} // verus!
