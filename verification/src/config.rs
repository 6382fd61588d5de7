//! The loader's configuration: its versions, its sections and its defaults.

use vstd::prelude::*;

verus! {

/// A log level as the configuration file spells it.
#[derive(Debug, Clone, Copy, PartialEq, Eq, Structural)]
pub enum LogLevel {
    Error,
    Warn,
    Info,
    Debug,
    Trace,
}

impl LogLevel {
    /// The level under which records of this level cross the module
    /// boundary.
    pub fn to_mod_level(&self) -> (level: crate::log::LogLevel)
        ensures
            level == match self {
                LogLevel::Error => crate::log::LogLevel::Error,
                LogLevel::Warn => crate::log::LogLevel::Warn,
                LogLevel::Info => crate::log::LogLevel::Info,
                LogLevel::Debug => crate::log::LogLevel::Debug,
                LogLevel::Trace => crate::log::LogLevel::Trace,
            },
    {
        match self {
            LogLevel::Error => crate::log::LogLevel::Error,
            LogLevel::Warn => crate::log::LogLevel::Warn,
            LogLevel::Info => crate::log::LogLevel::Info,
            LogLevel::Debug => crate::log::LogLevel::Debug,
            LogLevel::Trace => crate::log::LogLevel::Trace,
        }
    }
}

/// Why no configuration could be had.
#[derive(Debug, Clone, Copy, PartialEq, Eq, Structural)]
pub enum Error {
    /// The file states a version that this loader does not know.
    UnknownConfigVersion(u32),
    /// The file could not be read or not be understood.
    Unreadable,
}

/// The one field that every version of the configuration has.
#[derive(Debug, Clone, Copy, PartialEq, Eq, Structural)]
pub struct CauldronConfigVersionOnly {
    pub config_version: u32,
}

/// Logging configuration.
#[derive(Debug, Clone, PartialEq, Eq)]
pub struct CauldronLoggingConfig {
    /// Should a console window be opened at launch.
    pub show_console: bool,
    /// Disable console colours.
    pub disable_colours: bool,
    /// Log level for the console logger.
    pub console_level: LogLevel,
    /// Log file path relative to the game's directory.
    pub file_path: String,
    /// Log level for the file logger.
    pub file_level: LogLevel,
}

/// Patch configuration.
#[derive(Debug, Clone, Copy, PartialEq, Eq, Structural)]
pub struct CauldronPatchConfig {
    /// Disables game telemetry.
    pub disable_telemetry: bool,
    /// Disables the crash reporter.
    pub disable_crash_reporter: bool,
}

/// Configuration of the proxy that loads the loader.
#[derive(Debug, Clone, PartialEq, Eq)]
pub struct CauldronProxyLoaderConfig {
    /// Ask for full backtraces.
    pub enable_rust_backtracing: bool,
    /// Wait for a debugger before loading.
    pub wait_for_debugger: bool,
    /// Path to the loader file.
    pub loader_file: String,
}

/// Version 1 of the configuration.
#[derive(Debug, Clone, PartialEq, Eq)]
pub struct CauldronConfig {
    /// The version of the configuration; 1 here.
    pub config_version: u32,
    pub logging: CauldronLoggingConfig,
    pub patches: CauldronPatchConfig,
    pub proxy_loader: CauldronProxyLoaderConfig,
}

/// A configuration of any known version.
#[derive(Debug, Clone, PartialEq, Eq)]
pub enum VersionedConfig {
    V1(CauldronConfig),
}

/// Whether `config` holds the default values.
pub open spec fn is_default_config(config: CauldronConfig) -> bool {
    &&& config.config_version == 1
    &&& config.logging.show_console
    &&& !config.logging.disable_colours
    &&& config.logging.console_level == LogLevel::Debug
    &&& config.logging.file_path@ == "cauldron/cauldron.log"@
    &&& config.logging.file_level == LogLevel::Info
    &&& config.patches.disable_telemetry
    &&& config.patches.disable_crash_reporter
    &&& !config.proxy_loader.enable_rust_backtracing
    &&& !config.proxy_loader.wait_for_debugger
    &&& config.proxy_loader.loader_file@ == "cauldron/cauldron.dll"@
}

impl Default for CauldronConfig {
    fn default() -> (config: Self)
        ensures
            is_default_config(config),
    {
        CauldronConfig {
            config_version: 1,
            logging: CauldronLoggingConfig {
                show_console: true,
                console_level: LogLevel::Debug,
                disable_colours: false,
                file_path: "cauldron/cauldron.log".to_owned(),
                file_level: LogLevel::Info,
            },
            patches: CauldronPatchConfig { disable_telemetry: true, disable_crash_reporter: true },
            proxy_loader: CauldronProxyLoaderConfig {
                enable_rust_backtracing: false,
                wait_for_debugger: false,
                loader_file: "cauldron/cauldron.dll".to_owned(),
            },
        }
    }
}

impl Default for VersionedConfig {
    fn default() -> (config: Self)
        ensures
            config matches VersionedConfig::V1(c) && is_default_config(c),
    {
        VersionedConfig::V1(CauldronConfig::default())
    }
}

/// Decides whether a configuration of the stated version can be read: only
/// version 1 is known.
pub fn check_config_version(stated: &CauldronConfigVersionOnly) -> (verdict: Result<(), Error>)
    ensures
        verdict == if stated.config_version == 1 {
            Ok::<(), Error>(())
        } else {
            Err::<(), Error>(Error::UnknownConfigVersion(stated.config_version))
        },
{
    if stated.config_version == 1 {
        Ok(())
    } else {
        Err(Error::UnknownConfigVersion(stated.config_version))
    }
}

/// The configuration to run with: the one that was loaded, or the default
/// where loading failed.
pub fn load_config_or_default(loaded: Result<VersionedConfig, Error>) -> (config: VersionedConfig)
    ensures
        match loaded {
            Ok(c) => config == c,
            Err(_) => config matches VersionedConfig::V1(c) && is_default_config(c),
        },
{
    match loaded {
        Ok(c) => c,
        Err(_) => VersionedConfig::default(),
    }
}

/// The configuration to run with, and whether the default has to be written
/// out because loading failed.
pub fn load_config_or_write_default(loaded: Result<VersionedConfig, Error>) -> (outcome: (
    VersionedConfig,
    bool,
))
    ensures
        outcome.1 == loaded is Err,
        match loaded {
            Ok(c) => outcome.0 == c,
            Err(_) => outcome.0 matches VersionedConfig::V1(c) && is_default_config(c),
        },
{
    match loaded {
        Ok(c) => (c, false),
        Err(_) => (VersionedConfig::default(), true),
    }
}

} // verus!
