//! Monitor configuration values and their defaults.

use crate::monitor::types::{duration_from_millis, millis};
use std::time::Duration;
use vstd::prelude::*;

verus! {

/// Global configuration settings.
#[derive(Debug, Clone)]
pub struct GlobalConfig {
    /// Refresh interval in milliseconds.
    pub update_ms: u64,
    /// Number of data points to retain in history.
    pub history_size: usize,
    /// Temperature scale (celsius, fahrenheit, kelvin).
    pub temp_scale: String,
    /// Enable vim-style navigation keys (hjkl).
    pub vim_keys: bool,
    /// Enable mouse support.
    pub mouse: bool,
}

/// Default refresh interval: one second.
pub fn default_update_ms() -> (r: u64)
    ensures
        r == 1000,
{
    1000
}

/// Default history length: five minutes at one sample per second.
pub fn default_history_size() -> (r: usize)
    ensures
        r == 300,
{
    300
}

/// Default temperature scale.
pub fn default_temp_scale() -> (r: String)
    ensures
        r@ == "celsius"@,
{
    "celsius".to_string()
}

/// Vim keys are on by default.
pub fn default_vim_keys() -> (r: bool)
    ensures
        r,
{
    true
}

/// Mouse support is on by default.
pub fn default_mouse() -> (r: bool)
    ensures
        r,
{
    true
}

/// The current configuration format version.
pub fn default_version() -> (r: u32)
    ensures
        r == 1,
{
    1
}

/// The default theme name.
pub fn default_theme() -> (r: String)
    ensures
        r@ == "default"@,
{
    "default".to_string()
}

/// The global settings are the defaults.
pub open spec fn is_default_global(g: GlobalConfig) -> bool {
    &&& g.update_ms == 1000
    &&& g.history_size == 300
    &&& g.temp_scale@ == "celsius"@
    &&& g.vim_keys
    &&& g.mouse
}

impl Default for GlobalConfig {
    /// Every setting at its default.
    fn default() -> (g: Self)
        ensures
            is_default_global(g),
    {
        GlobalConfig {
            update_ms: default_update_ms(),
            history_size: default_history_size(),
            temp_scale: default_temp_scale(),
            vim_keys: default_vim_keys(),
            mouse: default_mouse(),
        }
    }
}

/// Main configuration structure.
#[derive(Debug, Clone)]
pub struct Config {
    /// Configuration version.
    pub version: u32,
    /// Global settings.
    pub global: GlobalConfig,
    /// Theme name or inline theme.
    pub theme: String,
}

/// The configuration is the default one.
pub open spec fn is_default_config(c: Config) -> bool {
    &&& c.version == 1
    &&& is_default_global(c.global)
    &&& c.theme@ == "default"@
}

impl Default for Config {
    /// Version 1, default global settings, default theme.
    fn default() -> (c: Self)
        ensures
            is_default_config(c),
    {
        Config { version: default_version(), global: GlobalConfig::default(), theme: default_theme() }
    }
}

impl Config {
    /// A configuration with default values.
    pub fn new() -> (c: Self)
        ensures
            is_default_config(c),
    {
        Self::default()
    }

    /// The refresh interval.
    pub fn update_interval(&self) -> (d: Duration)
        ensures
            d == millis(self.global.update_ms),
    {
        duration_from_millis(self.global.update_ms)
    }
}

} // verus!
