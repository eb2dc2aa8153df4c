//! Process configuration values: the application settings and the
//! external store's settings, built from plain values that the
//! configuration sources yield.

use vstd::prelude::*;

verus! {

/// Settings of the HTTP application around the adapter.
#[derive(Debug, Clone, PartialEq, Eq)]
pub struct ApplicationSettings {
    pub port: u16,
    pub log_directive: String,
}

/// Settings locating the external store's configuration: an existing
/// configuration file, or a data directory to write a default one into.
#[derive(Debug, Clone, PartialEq, Eq)]
pub struct TaskwarriorSettings {
    pub data_location: Option<String>,
    pub taskrc: Option<String>,
}

/// The process settings.
#[derive(Debug, Clone, PartialEq, Eq)]
pub struct Settings {
    pub application: ApplicationSettings,
    pub taskwarrior: TaskwarriorSettings,
}

impl Settings {
    /// Assembles the settings from their parts.
    pub fn new(application: ApplicationSettings, taskwarrior: TaskwarriorSettings) -> (r: Settings)
        ensures
            r.application == application,
            r.taskwarrior == taskwarrior,
    {
        Settings { application, taskwarrior }
    }
}

/// Which configuration file to read and whether it must exist: a named
/// file is required, the fallback from the environment or the fixed
/// default is not.
pub fn config_file_choice(file: Option<String>, env_config: Option<String>) -> (r: (String, bool))
    ensures
        r.1 == (file is Some),
        match file {
            Some(f) => r.0@ == f@,
            None => match env_config {
                Some(e) => r.0@ == e@,
                None => r.0@ == "dev"@,
            },
        },
{
    match file {
        Some(f) => (f, true),
        None => match env_config {
            Some(e) => (e, false),
            None => ("dev".to_owned(), false),
        },
    }
}

} // verus!
