use vstd::prelude::*;

verus! {

/// The parsed command line: one subcommand per operation.
pub struct Cli {
    pub command: Commands,
}

/// The operations the tool offers, with their arguments.
pub enum Commands {
    /// Analyze an OPML file for duplicates and potential issues.
    Analyze { input_file: String },
    /// Remove duplicate feeds while preserving categories.
    Dedupe { input_file: String, output_file: String },
    /// Validate feeds and check for issues, with a per-attempt timeout in
    /// seconds.
    Validate { input_file: String, timeout: u64 },
    /// Generate a detailed report about the OPML file, optionally validating
    /// the feeds as well.
    Report { input_file: String, output_file: String, validate_feeds: bool, timeout: u64 },
    /// Launch the interactive TUI mode.
    Interactive { input_file: String },
}

/// The default per-attempt timeout, in seconds.
pub const DEFAULT_TIMEOUT_SECS: u64 = 10;

} // verus!
