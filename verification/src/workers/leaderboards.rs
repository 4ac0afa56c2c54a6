//! The leaderboards.
use crate::entity::{EntityKind, FetchRequest};
use vstd::prelude::*;

verus! {

/// Fetches the leaderboards.
pub struct PollLeaderboards;

impl PollLeaderboards {
    /// How often, in seconds, the leaderboards are fetched. The source changes them once an hour,
    /// and they are large.
    pub fn interval() -> (seconds: u64)
        ensures
            seconds == 60 * 60,
    {
        60 * 60
    }

    /// The leaderboards, to be fetched.
    pub fn request() -> (request: FetchRequest)
        ensures
            request.asks_for(
                "https://mmolb.com/api/leaderboards"@,
                EntityKind::Leaderboard,
                "leaderboards"@,
            ),
    {
        FetchRequest {
            url: "https://mmolb.com/api/leaderboards".to_owned(),
            kind: EntityKind::Leaderboard,
            entity_id: "leaderboards".to_owned(),
        }
    }
}

} // verus!
