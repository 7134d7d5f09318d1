//! Time-windowed repository digest: which commits were merged and which
//! remote branches are still in progress during a search interval, grouped
//! by author into a message for a chat channel.
use vstd::prelude::*;

pub mod cli;
pub mod config;
pub mod environment;
pub mod fs;
pub mod git;
pub mod launchd;
pub mod message;
pub mod slack;
pub mod text;

verus! {

/// Name under which the tool keeps its files.
pub const APP_NAME: &'static str = "git-retrospective";

} // verus!
