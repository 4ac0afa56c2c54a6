use chron::entity::{EntityKind, FetchRequest};
use chron::workers::election::PollElection;
use chron::workers::leaderboards::PollLeaderboards;
use chron::workers::matviews::{MatviewRound, MatviewStep, RefreshMatviews};

fn request(url: &str, kind: EntityKind, entity_id: &str) -> FetchRequest {
    FetchRequest { url: url.to_string(), kind, entity_id: entity_id.to_string() }
}

#[test]
fn last_season_is_before_the_latest() {
    assert_eq!(PollElection::last_season_number(&vec![3, 11, 7]), 10);
    assert_eq!(PollElection::last_season_number(&vec![0]), -1);
    assert_eq!(PollElection::last_season_number(&vec![]), -1);
    assert_eq!(PollElection::last_season_number(&vec![-5]), -1);
    assert_eq!(PollElection::last_season_number(&vec![i64::MAX]), i64::MAX - 1);
}

#[test]
fn elections_are_fetched() {
    assert_eq!(
        PollElection::election_request(),
        request("https://mmolb.com/api/election", EntityKind::Election, "election")
    );
    assert_eq!(
        PollElection::history_request(10),
        request(
            "https://mmolb.com/api/election_history?season=10",
            EntityKind::ElectionHistory,
            "season-10-election"
        )
    );
    assert_eq!(PollElection::history_request(-1).entity_id, "season--1-election");
    assert_eq!(PollElection::interval(), 21600);
}

#[test]
fn leaderboards_are_fetched() {
    assert_eq!(
        PollLeaderboards::request(),
        request("https://mmolb.com/api/leaderboards", EntityKind::Leaderboard, "leaderboards")
    );
    assert_eq!(PollLeaderboards::interval(), 3600);
}

#[test]
fn there_are_no_views_at_present() {
    let round = MatviewRound::new(RefreshMatviews::matviews());
    assert!(matches!(round.begin(), MatviewStep::Finished));
    assert!(matches!(round.on_lock(true), MatviewStep::Finished));
    assert_eq!(RefreshMatviews::interval(), 600);
}

#[test]
fn views_are_refreshed_in_turn() {
    let round = MatviewRound::new(vec!["a".to_string(), "b".to_string()]);
    assert!(matches!(round.begin(), MatviewStep::Lock));
    match round.on_lock(true) {
        MatviewStep::Refresh { statement } => {
            assert_eq!(statement, "refresh materialized view concurrently a")
        }
        _ => panic!("the view is to be refreshed"),
    }
    let round = round.on_refreshed();
    match round.on_lock(true) {
        MatviewStep::Refresh { statement } => {
            assert_eq!(statement, "refresh materialized view concurrently b")
        }
        _ => panic!("the view is to be refreshed"),
    }
    let round = round.on_refreshed();
    assert!(matches!(round.begin(), MatviewStep::Finished));
    assert!(matches!(round.on_refreshed().begin(), MatviewStep::Finished));
}

#[test]
fn round_ends_without_the_lock() {
    let round = MatviewRound::new(vec!["a".to_string()]);
    assert!(matches!(round.on_lock(false), MatviewStep::Finished));
}
