//! The command surface: what the two subcommands carry into the pipeline.
//! Parsing the actual command line is a collaborator's job; these records
//! hold the parsed values the pipeline runs on.

use vstd::prelude::*;

verus! {

/// One invocation: a single subcommand.
pub struct Cli {
    pub command: Commands,
}

/// The two subcommands: download a user's gists to a folder with a bounded
/// number of concurrent downloads, or list them; both may cap how many gists
/// are taken.
pub enum Commands {
    Download { username: String, folder: String, concurrency: usize, limit: Option<u32> },
    List { username: String, limit: Option<u32> },
}

} // verus!
