//! The commands that the program accepts.

use vstd::prelude::*;

verus! {

/// A parsed command line.
#[derive(Debug, Clone)]
pub struct Cli {
    pub command: Command,
    /// Enable verbose output.
    pub verbose: bool,
}

/// What to do.
#[derive(Debug, Clone)]
pub enum Command {
    /// Subscribe to a podcast by RSS feed URL.
    Add { url: String },
    /// Remove a podcast subscription, found by partial name.
    Remove { name: String, yes: bool, purge: bool },
    /// List subscriptions, or the episodes of one podcast.
    List { name: Option<String> },
    /// Fetch new episodes, download, transcribe and summarize.
    Sync {
        name: Option<String>,
        episode: Option<i64>,
        download_only: bool,
        redo: bool,
        cpu: Option<u32>,
    },
    /// Show an episode's summary or transcript.
    Show { episode_id: i64, transcript: bool },
    /// Show or update the configuration.
    Config { action: Option<ConfigAction> },
}

/// What to do with the configuration.
#[derive(Debug, Clone)]
pub enum ConfigAction {
    /// Show the current configuration.
    Show,
    /// Show the configuration file's path.
    Path,
    /// Set a configuration value.
    SetValue { key: String, value: String },
}

} // verus!
