//! What each worker does when its interval comes round.
pub mod feeds;
pub mod feed_events;
pub mod games;
pub mod election;
pub mod leaderboards;
pub mod matviews;
