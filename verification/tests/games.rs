use chron::entity::{EntityKind, FetchRequest};
use chron::ids::{distinct, listed_ids, without};
use chron::json::Json;
use chron::workers::games::{
    add_day_games, all_season_ids, day_request, game_request, game_save_model,
    get_all_game_ids_from_days, get_all_known_game_ids, get_known_incomplete_game_ids,
    season_day_ids, season_days_label, season_request, should_poll, DayGame, DaySeasons,
    HandleEventGames, HandleSuperstarGames, MmolbGame, PollGameDays, StoredDay, SuperstarGame,
};

fn strings(items: &[&str]) -> Vec<String> {
    items.iter().map(|s| s.to_string()).collect()
}

fn request(url: &str, kind: EntityKind, entity_id: &str) -> FetchRequest {
    FetchRequest { url: url.to_string(), kind, entity_id: entity_id.to_string() }
}

fn day(id: &str, games: Option<&[Option<&str>]>) -> StoredDay {
    StoredDay {
        entity_id: id.to_string(),
        games: games.map(|games| {
            games.iter().map(|g| DayGame { game_id: g.map(|g| g.to_string()) }).collect()
        }),
    }
}

fn field(name: &str, value: Json) -> (String, Json) {
    (name.to_string(), value)
}

#[test]
fn ids_are_kept_once() {
    assert_eq!(distinct(&strings(&["b", "a", "b", "c", "a"])), vec!["b", "a", "c"]);
    assert!(distinct(&vec![]).is_empty());
}

#[test]
fn ids_are_left_out() {
    assert_eq!(
        without(&strings(&["a", "b", "c", "b"]), &strings(&["b", "x"])),
        vec!["a", "c"]
    );
    assert_eq!(without(&strings(&["a"]), &vec![]), vec!["a"]);
}

#[test]
fn ids_are_listed_one_to_a_line() {
    assert_eq!(listed_ids("g1\r\n  g2\t\n\n\u{a0}\u{3000}\ng 3\n"), vec!["g1", "g2", "g 3"]);
    assert!(listed_ids("").is_empty());
    assert!(listed_ids("\n \n").is_empty());
    assert_eq!(listed_ids("g1"), vec!["g1"]);
}

#[test]
fn days_belong_to_the_season_that_listed_them_last() {
    let mut seasons = DaySeasons::new();
    seasons.add_season("s1", &strings(&["d1", "d2"]));
    seasons.add_season("s2", &strings(&["d2", "d3"]));
    assert!(seasons.includes("d1", Some("s1")));
    assert!(!seasons.includes("d2", Some("s1")));
    assert!(seasons.includes("d2", Some("s2")));
    assert!(!seasons.includes("d4", Some("s1")));
    assert!(seasons.includes("d4", None));
}

#[test]
fn games_of_a_season_are_those_of_its_days() {
    let mut seasons = DaySeasons::new();
    seasons.add_season("s1", &strings(&["d1", "d2", "d3"]));
    let days = vec![
        day("d1", Some(&[Some("g1"), None, Some("g2")])),
        day("d2", None),
        day("other", Some(&[Some("g3")])),
        day("d3", Some(&[Some("g1")])),
    ];
    assert_eq!(get_all_game_ids_from_days(&seasons, Some("s1"), &days), vec!["g1", "g2", "g1"]);
    assert_eq!(
        get_all_game_ids_from_days(&seasons, None, &days),
        vec!["g1", "g2", "g3", "g1"]
    );
    assert!(get_all_game_ids_from_days(&seasons, Some("s9"), &days).is_empty());
    let mut ids = strings(&["g0"]);
    add_day_games(&mut ids, &vec![DayGame { game_id: None }]);
    assert_eq!(ids, vec!["g0"]);
}

#[test]
fn superstar_days_follow_the_ordinary_ones() {
    let fields = vec![
        field("SuperstarDay1", Json::Str("x1".to_string())),
        field("SuperstarDay", Json::Str("x2".to_string())),
        field("SuperstarDay-2", Json::Str("x3".to_string())),
        field("SuperstarDay+3", Json::Str("x4".to_string())),
        field("SuperstarDay 4", Json::Str("x5".to_string())),
        field("SuperstarDay4x", Json::Str("x6".to_string())),
        field("SuperstarDay9223372036854775807", Json::Str("x7".to_string())),
        field("SuperstarDay9223372036854775808", Json::Str("x8".to_string())),
        field("SuperstarDay5", Json::Integer(5)),
        field("superstarDay6", Json::Str("x9".to_string())),
        field("SuperstarDay٣", Json::Str("x10".to_string())),
    ];
    assert_eq!(
        season_day_ids(strings(&["d1", "d2"]), &fields),
        vec!["d1", "d2", "x1", "x3", "x4", "x7"]
    );
}

#[test]
fn seasons_days_and_games_are_fetched_by_id() {
    assert_eq!(
        season_request("s1"),
        request("https://mmolb.com/api/season/s1", EntityKind::Season, "s1")
    );
    assert_eq!(day_request("d1"), request("https://mmolb.com/api/day/d1", EntityKind::Day, "d1"));
    assert_eq!(
        game_request("g1"),
        request("https://mmolb.com/api/game/g1", EntityKind::Game, "g1")
    );
    assert_eq!(season_days_label(11), "season 11 days");
    assert_eq!(season_days_label(-1), "season -1 days");
    assert_eq!(season_days_label(i64::MIN), "season -9223372036854775808 days");
    assert_eq!(season_days_label(0), "season 0 days");
}

#[test]
fn complete_games_are_not_fetched_again() {
    assert!(!should_poll(Some("Complete")));
    assert!(should_poll(Some("complete")));
    assert!(should_poll(Some("Pregame")));
    assert!(should_poll(None));
}

#[test]
fn games_are_summed_up() {
    let game = MmolbGame {
        season: 3,
        day: None,
        day_special: Some("Superstar Day 1".to_string()),
        home_team_id: "h".to_string(),
        away_team_id: "a".to_string(),
        state: "Complete".to_string(),
        event_log: vec!["first", "last"],
    };
    let model = game_save_model("g1", &game);
    assert_eq!(model.game_id, "g1");
    assert_eq!(model.season, 3);
    assert_eq!(model.day, None);
    assert_eq!(model.day_special, Some("Superstar Day 1"));
    assert_eq!(model.home_team_id, "h");
    assert_eq!(model.away_team_id, "a");
    assert_eq!(model.state, "Complete");
    assert_eq!(model.event_count, 2);
    assert_eq!(model.last_update, Some(&"last"));
    let game: MmolbGame<u8> = MmolbGame {
        season: 3,
        day: Some(12),
        day_special: None,
        home_team_id: String::new(),
        away_team_id: String::new(),
        state: String::new(),
        event_log: vec![],
    };
    let model = game_save_model("g2", &game);
    assert_eq!(model.day, Some(12));
    assert_eq!(model.day_special, None);
    assert_eq!(model.event_count, 0);
    assert_eq!(model.last_update, None);
}

#[test]
fn known_games_come_from_everywhere() {
    let stored = strings(&["g2", "g3"]);
    let from_days = strings(&["g3", "g4"]);
    assert_eq!(
        get_all_known_game_ids("g1\ng2\n", &stored, &from_days),
        vec!["g1", "g2", "g3", "g4"]
    );
    assert_eq!(
        get_known_incomplete_game_ids("g1\ng2\n", &stored, &from_days, &strings(&["g2", "g9"])),
        vec!["g1", "g3", "g4"]
    );
}

#[test]
fn season_games_are_polled_unless_complete() {
    assert_eq!(
        PollGameDays::games_to_poll(&strings(&["g1", "g2", "g1", "g3"]), &strings(&["g2"])),
        vec!["g1", "g3"]
    );
}

#[test]
fn all_seasons_hold_the_first_three() {
    assert_eq!(
        all_season_ids(&strings(&["6846ba011b7a53d888cdef49", "s9"])),
        vec![
            "6846ba011b7a53d888cdef49",
            "s9",
            "6805db0fac48194de3cd42d1",
            "6858e7be2d94a56ec8d460ea",
        ]
    );
}

#[test]
fn superstar_games_are_those_with_ids() {
    let games = vec![
        SuperstarGame { game_id: Some("g1".to_string()) },
        SuperstarGame { game_id: None },
        SuperstarGame { game_id: Some("g2".to_string()) },
    ];
    assert_eq!(HandleSuperstarGames::game_ids(&games), vec!["g1", "g2"]);
    assert_eq!(
        HandleSuperstarGames::games_request(),
        request(
            "https://mmolb.com/api/superstar-games",
            EntityKind::SuperstarGames,
            "superstar-games"
        )
    );
    assert_eq!(
        HandleSuperstarGames::bracket_request(),
        request(
            "https://mmolb.com/api/super16-bracket",
            EntityKind::Super16Bracket,
            "super16-bracket"
        )
    );
}

#[test]
fn game_intervals() {
    assert_eq!(PollGameDays::interval(), 300);
    assert_eq!(HandleSuperstarGames::interval(), 300);
    assert_eq!(HandleEventGames::interval(), 300);
}
