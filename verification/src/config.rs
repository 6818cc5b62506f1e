//! The persisted settings: the reconnect hotkey string. Reading and
//! writing the settings file is the application's business; this module
//! decides what to use for each outcome of that read, falling back to the
//! documented default and asking for the default to be written back only
//! when no settings file exists yet.
use vstd::prelude::*;
use vstd::string::StringExecFns;

verus! {

/// The persisted settings.
#[derive(Clone, Debug)]
pub struct Config {
    pub reconnect_hotkey: String,
}

impl Default for Config {
    /// The documented default binding.
    fn default() -> (r: Config)
        ensures
            r.reconnect_hotkey@ == "Shift+Alt+R"@,
    {
        Config { reconnect_hotkey: String::from_str("Shift+Alt+R") }
    }
}

/// What the application found when it tried to read the settings file.
#[derive(Debug)]
pub enum ConfigSource {
    /// The settings path could not even be resolved.
    NoPath,
    /// No settings file exists yet.
    Missing,
    /// The file exists but could not be read.
    Unreadable,
    /// The file was read but does not parse.
    Corrupt,
    /// The file was read and parsed.
    Loaded(Config),
}

impl Config {
    /// The settings to use for a read outcome, and whether the default
    /// should be written back (only when no file exists yet; an unreadable
    /// or corrupt file is left alone).
    pub fn load(source: ConfigSource) -> (r: (Config, bool))
        ensures
            match source {
                ConfigSource::Loaded(c) => r.0 == c && r.1 == false,
                ConfigSource::Missing => r.0.reconnect_hotkey@ == "Shift+Alt+R"@ && r.1 == true,
                _ => r.0.reconnect_hotkey@ == "Shift+Alt+R"@ && r.1 == false,
            },
    {
        match source {
            ConfigSource::Loaded(c) => (c, false),
            ConfigSource::Missing => (Config::default(), true),
            _ => (Config::default(), false),
        }
    }
}

} // verus!
