use chron::entity::{EntityKind, FetchRequest};
use chron::json::Json;
use chron::timestamp::Timestamp;
use chron::workers::feed_events::{
    feed_rows, not_a_string_message, parse_timestamps, str_from_json_value, text_columns,
    FeedCursor, FeedEventError, FeedEvents, FeedPoll, FeedPollEnd, FeedPollNext, FeedPollStep, LimitNotice,
    PollFeeds,
};
use chron::workers::feeds::{
    handle_feed, player_feed_request, team_feed_request, FeedEntry, FeedHolder, FeedLink,
    PlayerNameMapEntry, PollPlayerFeeds, PollTeamFeeds, ProcessFeeds,
};

fn at(unix_seconds: i64) -> Timestamp {
    Timestamp { unix_seconds, nanosecond: 0, offset_seconds: 0 }
}

fn link(kind: Option<&str>, id: Option<&str>, string: Option<&str>) -> FeedLink {
    FeedLink {
        kind: kind.map(|s| s.to_string()),
        id: id.map(|s| s.to_string()),
        string: string.map(|s| s.to_string()),
    }
}

fn entry(ts: i64, text: &str, links: Vec<FeedLink>) -> FeedEntry {
    FeedEntry { ts: at(ts), text: text.to_string(), links }
}

fn name(ts: i64, id: &str, name: &str) -> PlayerNameMapEntry {
    PlayerNameMapEntry {
        timestamp: at(ts),
        player_id: id.to_string(),
        player_name: name.to_string(),
    }
}

fn text(s: &str) -> Json {
    Json::Str(s.to_string())
}

fn object(members: Vec<(&str, Json)>) -> Json {
    Json::Object(members.into_iter().map(|(k, v)| (k.to_string(), v)).collect())
}

fn event(id: &str, ts: &str) -> Json {
    object(vec![
        ("_id", text(id)),
        ("subject_type", text("team")),
        ("subject_id", text("t1")),
        ("ts", text(ts)),
    ])
}

fn json(text: &str) -> serde_json::Value {
    serde_json::from_str(text).unwrap()
}

#[test]
fn names_of_player_links_are_collected() {
    let mut names = vec![name(1, "p0", "Earlier")];
    let holder = FeedHolder {
        feed: vec![
            entry(
                5,
                "Ann was traded.",
                vec![
                    link(Some("team"), Some("t1"), Some("Team")),
                    link(Some("player"), Some("p1"), Some("Ann")),
                    link(Some("player"), Some("p2"), Some("Bob")),
                ],
            ),
            entry(6, "Nobody.", vec![]),
        ],
    };
    handle_feed(&mut names, &holder.feed);
    assert_eq!(names, vec![name(1, "p0", "Earlier"), name(5, "p1", "Ann"), name(5, "p2", "Bob")]);
}

#[test]
fn incomplete_player_links_are_skipped() {
    let mut names = Vec::new();
    let feed = vec![entry(
        5,
        "x",
        vec![
            link(Some("player"), None, Some("Ann")),
            link(Some("player"), Some("p1"), None),
            link(None, Some("p1"), Some("Ann")),
            link(Some("Player"), Some("p1"), Some("Ann")),
        ],
    )];
    handle_feed(&mut names, &feed);
    assert!(names.is_empty());
}

#[test]
fn recomposed_players_keep_the_first_id() {
    let mut names = Vec::new();
    let feed = vec![entry(
        7,
        "Ann was Recomposed into Bob.",
        vec![
            link(Some("team"), Some("t1"), Some("Team")),
            link(Some("player"), Some("p1"), Some("Ann")),
            link(Some("player"), Some("p2"), Some("Bob")),
        ],
    )];
    handle_feed(&mut names, &feed);
    assert_eq!(names, vec![name(7, "p1", "Ann"), name(7, "p1", "Bob")]);
}

#[test]
fn recomposition_without_first_id_gives_no_names() {
    let mut names = Vec::new();
    let feed = vec![entry(
        7,
        "Ann was Recomposed into Bob.",
        vec![link(Some("player"), None, Some("Ann")), link(Some("player"), Some("p2"), Some("Bob"))],
    )];
    handle_feed(&mut names, &feed);
    assert!(names.is_empty());
}

#[test]
fn feeds_add_up() {
    let one = || entry(1, "x", vec![link(Some("player"), Some("p1"), Some("Ann"))]);
    let two = || entry(2, "x", vec![link(Some("player"), Some("p1"), Some("Ann B."))]);
    let mut in_parts = Vec::new();
    handle_feed(&mut in_parts, &vec![one()]);
    handle_feed(&mut in_parts, &vec![two()]);
    let mut at_once = Vec::new();
    handle_feed(&mut at_once, &vec![one(), two()]);
    assert_eq!(in_parts, at_once);
}

#[test]
fn names_are_stored_in_batches() {
    assert!(ProcessFeeds::batches(&vec![]).is_empty());
    let names: Vec<PlayerNameMapEntry> =
        (0..2001).map(|i| name(i, &format!("p{}", i), &format!("n{}", i))).collect();
    let batches = ProcessFeeds::batches(&names);
    let sizes: Vec<usize> = batches.iter().map(|b| b.ids.len()).collect();
    assert_eq!(sizes, vec![1000, 1000, 1]);
    let ids: Vec<String> = batches.iter().flat_map(|b| b.ids.clone()).collect();
    assert_eq!(ids, names.iter().map(|n| n.player_id.clone()).collect::<Vec<_>>());
    assert_eq!(batches[1].names[0], "n1000");
    assert_eq!(batches[2].timestamps, vec![at(2000)]);
    let exact: Vec<PlayerNameMapEntry> = (0..1000).map(|i| name(i, "p", "n")).collect();
    assert_eq!(ProcessFeeds::batches(&exact).len(), 1);
}

#[test]
fn feeds_are_fetched_by_id() {
    assert_eq!(
        player_feed_request("p1"),
        FetchRequest {
            url: "https://mmolb.com/api/feed?player=p1".to_string(),
            kind: EntityKind::PlayerFeed,
            entity_id: "p1".to_string(),
        }
    );
    assert_eq!(
        team_feed_request("t1"),
        FetchRequest {
            url: "https://mmolb.com/api/feed?team=t1".to_string(),
            kind: EntityKind::TeamFeed,
            entity_id: "t1".to_string(),
        }
    );
}

#[test]
fn feed_intervals() {
    assert_eq!(ProcessFeeds::interval(), 300);
    assert_eq!(PollPlayerFeeds::interval(), 18000);
    assert_eq!(PollTeamFeeds::interval(), 3600);
    assert_eq!(PollFeeds::interval(), 900);
}

#[test]
fn poll_starts_at_the_stored_cursor() {
    let poll = FeedPoll::new(Some(FeedCursor {
        timestamp_str: "2026-08-01T00:00:00Z".to_string(),
        event_id: "e1".to_string(),
    }));
    assert_eq!(
        poll.url(),
        "https://mmolb.com/api/feed/events?limit=1000&cursor=2026-08-01T00:00:00Z|e1"
    );
    assert_eq!(FeedPoll::new(None).url(), "https://mmolb.com/api/feed/events?limit=1000");
}

fn limited(limit: Option<Json>) -> FeedEvents {
    FeedEvents { events: vec![], has_more: false, limit, next_cursor: None }
}

fn batch(has_more: bool, next_cursor: Option<&str>) -> FeedEvents {
    FeedEvents {
        events: vec![event("e1", "1970-01-01T00:00:01Z")],
        has_more,
        limit: None,
        next_cursor: next_cursor.map(str::to_string),
    }
}

#[test]
fn limits_are_compared() {
    assert_eq!(PollFeeds::limit_notice(&limited(Some(Json::Integer(1000)))), LimitNotice::AsRequested);
    assert_eq!(
        PollFeeds::limit_notice(&limited(Some(Json::Integer(-5)))),
        LimitNotice::Different { limit: -5 }
    );
    assert_eq!(
        PollFeeds::limit_notice(&limited(Some(Json::Integer(u64::MAX as i128)))),
        LimitNotice::NotAnInteger
    );
    assert_eq!(PollFeeds::limit_notice(&limited(Some(text("1000")))), LimitNotice::NotAnInteger);
    assert_eq!(
        PollFeeds::limit_notice(&limited(Some(Json::Float("1000.0".to_string())))),
        LimitNotice::NotAnInteger
    );
    assert_eq!(PollFeeds::limit_notice(&limited(None)), LimitNotice::Missing);
}

#[test]
fn members_are_read_as_text() {
    let events = vec![event("e1", "t"), event("e2", "t")];
    assert_eq!(str_from_json_value(&events, "_id").unwrap(), vec!["e1", "e2"]);
    for broken in [
        object(vec![]),
        object(vec![("_id", Json::Null)]),
        object(vec![("_id", Json::Bool(true))]),
        Json::Array(vec![text("_id")]),
        text("_id"),
    ] {
        let events = vec![event("e1", "t"), broken];
        match str_from_json_value(&events, "_id") {
            Err(FeedEventError::NotAString { key }) => assert_eq!(key, "_id"),
            _ => panic!("a member was made up"),
        }
    }
    assert_eq!(not_a_string_message("_id"), "Event's _id is missing or not a string");
}

#[test]
fn timestamps_are_read() {
    let read = parse_timestamps(&vec![
        "1970-01-01T00:00:01Z".to_string(),
        "1970-01-01T01:00:00.5+01:00".to_string(),
        "1969-12-31T23:59:59.25Z".to_string(),
    ])
    .unwrap();
    assert_eq!(
        read,
        vec![
            at(1),
            Timestamp { unix_seconds: 0, nanosecond: 500_000_000, offset_seconds: 3600 },
            Timestamp { unix_seconds: -1, nanosecond: 250_000_000, offset_seconds: 0 },
        ]
    );
    assert!(matches!(
        parse_timestamps(&vec!["yesterday".to_string()]),
        Err(FeedEventError::Timestamp(_))
    ));
}

#[test]
fn events_become_rows() {
    let events = vec![event("e1", "1970-01-01T00:00:01Z"), event("e2", "1970-01-01T00:00:02Z")];
    let rows = feed_rows(&events, at(10), at(11)).unwrap();
    assert_eq!(rows.event_ids, vec!["e1", "e2"]);
    assert_eq!(rows.subject_types, vec!["team", "team"]);
    assert_eq!(rows.subject_ids, vec!["t1", "t1"]);
    assert_eq!(rows.timestamps, vec![at(1), at(2)]);
    assert_eq!(rows.timestamp_strs, vec!["1970-01-01T00:00:01Z", "1970-01-01T00:00:02Z"]);
    assert_eq!(rows.request_starts, vec![at(10), at(10)]);
    assert_eq!(rows.request_ends, vec![at(11), at(11)]);
}

#[test]
fn columns_take_the_times_they_are_given() {
    let columns = text_columns(&vec![event("e1", "not read")]).unwrap();
    assert_eq!(columns.timestamp_strs, vec!["not read"]);
    let rows = columns.with_timestamps(vec![at(7)], at(1), at(2));
    assert_eq!(rows.event_ids, vec!["e1"]);
    assert_eq!(rows.timestamps, vec![at(7)]);
    assert_eq!(rows.request_starts, vec![at(1)]);
    assert_eq!(rows.request_ends, vec![at(2)]);
}

#[test]
fn rows_are_stored_with_their_events() {
    let read = vec![event("e1", "1970-01-01T00:00:01Z"), event("e2", "1970-01-01T00:00:02Z")];
    let received = vec![json("{\"_id\":\"e1\",\"n\":1.5}"), json("{\"_id\":\"e2\",\"n\":[]}")];

    let batch = feed_rows(&read, at(8), at(9)).unwrap().with_events(received.clone()).unwrap();
    assert_eq!(batch.events, received);
    assert_eq!(batch.rows.event_ids, vec!["e1", "e2"]);
    assert_eq!(batch.rows.subject_types.len(), 2);
    assert_eq!(batch.rows.subject_ids.len(), 2);
    assert_eq!(batch.rows.timestamps, vec![at(1), at(2)]);
    assert_eq!(batch.rows.timestamp_strs, vec!["1970-01-01T00:00:01Z", "1970-01-01T00:00:02Z"]);
    assert_eq!(batch.rows.request_starts, vec![at(8), at(8)]);
    assert_eq!(batch.rows.request_ends, vec![at(9), at(9)]);

    let rows = feed_rows(&read, at(8), at(9)).unwrap();
    assert!(rows.with_events(vec![json("1")]).is_none());
    let rows = feed_rows(&read, at(8), at(9)).unwrap();
    assert!(rows.with_events(vec![json("1"), json("2"), json("3")]).is_none());
}

#[test]
fn first_missing_member_is_reported() {
    // The first event lacks a later member, the second an earlier one.
    let events = vec![
        object(vec![("_id", text("e1")), ("subject_type", text("team"))]),
        object(vec![("_id", text("e2"))]),
    ];
    match feed_rows(&events, at(0), at(0)) {
        Err(FeedEventError::NotAString { key }) => assert_eq!(key, "subject_type"),
        _ => panic!("the event is incomplete"),
    }
    assert!(matches!(
        feed_rows(&vec![event("e1", "soon")], at(0), at(0)),
        Err(FeedEventError::Timestamp(_))
    ));
}

#[test]
fn batches_are_stored_until_the_last() {
    let container = batch(true, Some("c1"));
    match PollFeeds::on_response(&container, at(1), at(2)) {
        Ok(FeedPollStep::Save(rows)) => assert_eq!(rows.event_ids, vec!["e1"]),
        _ => panic!("the batch is to be stored"),
    }
    match PollFeeds::on_saved(container) {
        FeedPollNext::Fetch(poll) => {
            assert_eq!(poll.url(), "https://mmolb.com/api/feed/events?limit=1000&cursor=c1")
        }
        FeedPollNext::Finished(_) => panic!("there is more"),
    }
}

#[test]
fn polls_end() {
    let empty =
        FeedEvents { events: vec![], has_more: true, limit: None, next_cursor: Some("c".to_string()) };
    assert!(matches!(
        PollFeeds::on_response(&empty, at(1), at(2)),
        Ok(FeedPollStep::Finished(FeedPollEnd::NoEvents))
    ));
    assert!(matches!(
        PollFeeds::on_saved(batch(false, Some("c"))),
        FeedPollNext::Finished(FeedPollEnd::NoMore)
    ));
    assert!(matches!(
        PollFeeds::on_saved(batch(true, None)),
        FeedPollNext::Finished(FeedPollEnd::NoCursor)
    ));
}

#[test]
fn broken_batch_is_not_stored() {
    let broken = FeedEvents {
        events: vec![event("e1", "1970-01-01T00:00:01Z"), object(vec![])],
        has_more: false,
        limit: None,
        next_cursor: None,
    };
    assert!(matches!(
        PollFeeds::on_response(&broken, at(1), at(2)),
        Err(FeedEventError::NotAString { .. })
    ));
}
