//! The election, and the history of the one before.
use crate::entity::{EntityKind, FetchRequest};
use crate::text::{decimal, i64_to_string, joined};
use vstd::prelude::*;

verus! {

/// Fetches the election, and the history of the one of the season before.
pub struct PollElection;

/// Whether `latest` is the highest of the season numbers, or 0 where none is higher.
pub open spec fn is_latest_season(latest: int, seasons: Seq<i64>) -> bool {
    &&& latest >= 0
    &&& forall|i: int| 0 <= i < seasons.len() ==> #[trigger] seasons[i] <= latest
    &&& latest == 0 || exists|i: int| 0 <= i < seasons.len() && #[trigger] seasons[i] == latest
}

impl PollElection {
    /// How often, in seconds, the election is fetched.
    pub fn interval() -> (seconds: u64)
        ensures
            seconds == 6 * 60 * 60,
    {
        6 * 60 * 60
    }

    /// The election, to be fetched.
    pub fn election_request() -> (request: FetchRequest)
        ensures
            request.asks_for(
                "https://mmolb.com/api/election"@,
                EntityKind::Election,
                "election"@,
            ),
    {
        FetchRequest {
            url: "https://mmolb.com/api/election".to_owned(),
            kind: EntityKind::Election,
            entity_id: "election".to_owned(),
        }
    }

    /// The number of the season before the latest, out of the numbers of all seasons.
    pub fn last_season_number(seasons: &Vec<i64>) -> (last: i64)
        ensures
            is_latest_season(last + 1, seasons@),
            last >= -1,
            forall|i: int| 0 <= i < seasons@.len() ==> #[trigger] seasons@[i] - 1 <= last,
            last > -1 ==> exists|i: int| 0 <= i < seasons@.len() && #[trigger] seasons@[i] - 1 == last,
    {
        let mut latest: i64 = 0;
        for i in 0..seasons.len()
            invariant
                is_latest_season(latest as int, seasons@.take(i as int)),
        {
            let ghost earlier = seasons@.take(i as int);
            let ghost next = seasons@.take(i + 1);
            let ghost so_far = latest;
            if seasons[i] > latest {
                latest = seasons[i];
            }
            proof {
                assert(next[i as int] == seasons@[i as int]);
                assert forall|j: int| 0 <= j < next.len() implies #[trigger] next[j] <= latest by {
                    if j < i {
                        assert(earlier[j] == next[j]);
                    }
                }
                if latest == so_far && latest != 0 {
                    let j = choose|j: int| 0 <= j < earlier.len() && #[trigger] earlier[j] == latest;
                    assert(next[j] == latest);
                }
            }
        }
        assert(seasons@.take(seasons@.len() as int) == seasons@);
        proof {
            if latest > 0 {
                let i = choose|i: int|
                    0 <= i < seasons@.len() && #[trigger] seasons@[i] == latest;
                assert(seasons@[i] - 1 == latest - 1);
            }
        }
        latest - 1
    }

    /// The history of the election of a season, to be fetched.
    pub fn history_request(last_season: i64) -> (request: FetchRequest)
        ensures
            request.asks_for(
                "https://mmolb.com/api/election_history?season="@ + decimal(last_season as int),
                EntityKind::ElectionHistory,
                "season-"@ + decimal(last_season as int) + "-election"@,
            ),
    {
        let number = i64_to_string(last_season);
        FetchRequest {
            url: joined("https://mmolb.com/api/election_history?season=", number.as_str()),
            kind: EntityKind::ElectionHistory,
            entity_id: joined(joined("season-", number.as_str()).as_str(), "-election"),
        }
    }
}

/// Season numbers have one latest season: the number before it is the same however it is found.
pub proof fn law_latest_season_is_unique(a: int, b: int, seasons: Seq<i64>)
    requires
        is_latest_season(a, seasons),
        is_latest_season(b, seasons),
    ensures
        a == b,
{
}

/// The latest season is at least 0 and at least every season, and where it is not 0 it is one of
/// them.
pub proof fn law_latest_season_is_the_highest(latest: int, seasons: Seq<i64>)
    ensures
        is_latest_season(latest, seasons) <==> {
            &&& latest >= 0
            &&& forall|i: int| 0 <= i < seasons.len() ==> #[trigger] seasons[i] <= latest
            &&& latest > 0 ==> exists|i: int| 0 <= i < seasons.len() && #[trigger] seasons[i] == latest
        },
{
}

} // verus!
