//! What is stored: the kinds of entities, and an observation of one.
use crate::timestamp::{TimeSpan, Timestamp};
use vstd::prelude::*;

verus! {

/// The kinds of entities that are fetched.
#[derive(Clone, Copy, Debug, PartialEq, Eq, Structural)]
pub enum EntityKind {
    Season,
    Day,
    Game,
    Player,
    Team,
    PlayerFeed,
    TeamFeed,
    SuperstarGames,
    Super16Bracket,
    Leaderboard,
    Election,
    ElectionHistory,
}

/// One observation of an entity.
#[derive(Debug)]
pub struct NewObject {
    pub data: serde_json::Value,
    pub kind: EntityKind,
    pub entity_id: String,
    pub request_time: TimeSpan,
    pub timestamp: Timestamp,
}

/// What to fetch, and as which entity to save it.
#[derive(Debug, PartialEq, Eq)]
pub struct FetchRequest {
    pub url: String,
    pub kind: EntityKind,
    pub entity_id: String,
}

impl FetchRequest {
    /// Whether the request is for `url`, to be saved as the entity `entity_id` of kind `kind`.
    pub open spec fn asks_for(self, url: Seq<char>, kind: EntityKind, entity_id: Seq<char>) -> bool {
        &&& self.url@ == url
        &&& self.kind == kind
        &&& self.entity_id@ == entity_id
    }
}

/// A request is for one URL, and is saved as one entity of one kind: no two differ and are asked
/// for alike.
pub proof fn law_request_is_for_one_thing(
    request: FetchRequest,
    url: Seq<char>,
    kind: EntityKind,
    entity_id: Seq<char>,
)
    ensures
        request.asks_for(request.url@, request.kind, request.entity_id@),
        request.asks_for(url, kind, entity_id) ==> request.url@ == url && request.kind == kind
            && request.entity_id@ == entity_id,
{
}

} // verus!
