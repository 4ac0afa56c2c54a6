//! The configuration of the programs.
use vstd::prelude::*;

verus! {

/// What the programs are told when they start.
#[derive(Debug, Clone, PartialEq, Eq)]
pub struct ChronConfig {
    /// Where the database is.
    pub database_uri: String,
    /// The directory of exports to be served, if any is.
    pub export_path: Option<String>,
    /// Whether the workers are spread out in time; not unless it is said.
    pub jitter: bool,
}

} // verus!
