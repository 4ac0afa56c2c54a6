use chron::entity::EntityKind;
use chron::feed_pages::{
    feed_document, frame_feed, paged_response, FeedHolder, FeedPager, PageOutcome,
};
use chron::http::{response_step, ClientResponse, ResponseError, ResponseStep};
use chron::timestamp::{TimeSpan, Timestamp};
use serde_json::Value;

fn at(unix_seconds: i64, nanosecond: u32) -> Timestamp {
    Timestamp { unix_seconds, nanosecond, offset_seconds: 0 }
}

fn json(text: &str) -> Value {
    serde_json::from_str(text).unwrap()
}

fn response(body: &str) -> ClientResponse {
    ClientResponse::fetched(
        "https://mmolb.com/api/state".to_string(),
        at(100, 500_000_000),
        at(102, 250_000_000),
        body.as_bytes().to_vec(),
        200,
    )
}

fn page(events: &[&str], next_cursor: Option<Option<&str>>) -> FeedHolder {
    FeedHolder {
        feed: events.iter().map(|e| json(e)).collect(),
        next_cursor: next_cursor.map(|c| c.map(|c| c.to_string())),
    }
}

fn next(outcome: PageOutcome) -> FeedPager {
    match outcome {
        PageOutcome::NextPage(pager) => pager,
        PageOutcome::Complete(_) => panic!("the feed is complete"),
    }
}

fn events(outcome: PageOutcome) -> Vec<Value> {
    match outcome {
        PageOutcome::Complete(events) => events,
        PageOutcome::NextPage(_) => panic!("there is another page"),
    }
}

#[test]
fn bad_gateway_breaks_the_circuit_and_is_rejected() {
    assert_eq!(response_step(502, false), ResponseStep::BreakCircuit);
    assert_eq!(response_step(502, true), ResponseStep::Reject);
}

#[test]
fn error_statuses_are_rejected() {
    for status in [400, 404, 429, 499, 500, 503, 599] {
        assert_eq!(response_step(status, false), ResponseStep::Reject);
    }
    for status in [100, 200, 204, 304, 399, 600] {
        assert_eq!(response_step(status, false), ResponseStep::ReadBody);
    }
}

#[test]
fn response_knows_when_it_was_made() {
    let response = response("{}");
    assert_eq!(response.timestamp(), at(100, 500_000_000));
    assert_eq!(response.request_time(), TimeSpan { nanoseconds: 1_750_000_000 });
    assert_eq!(response._status_code, 200);
    assert!(!response._was_cached);
    assert_eq!(response.clone().data, b"{}".to_vec());
}

#[test]
fn response_becomes_an_observation() {
    let object =
        response(" {\"season\": 3 } ").to_chron(EntityKind::Season, "6805db0fac48194de3cd42d1").unwrap();
    assert_eq!(object.data, json("{\"season\":3}"));
    assert_eq!(object.kind, EntityKind::Season);
    assert_eq!(object.entity_id, "6805db0fac48194de3cd42d1");
    assert_eq!(object.request_time, TimeSpan { nanoseconds: 1_750_000_000 });
    assert_eq!(object.timestamp, at(100, 500_000_000));
}

#[test]
fn observation_takes_the_value_it_is_given() {
    let object = response("not read").observation(json("[1]"), EntityKind::Day, "d");
    assert_eq!(object.data, json("[1]"));
    assert_eq!(object.kind, EntityKind::Day);
}

#[test]
fn response_that_is_no_json_is_refused() {
    assert!(matches!(
        response("<html>").to_chron(EntityKind::Season, "s"),
        Err(ResponseError::Json(_))
    ));
    assert!(matches!(response("").parse(), Err(ResponseError::Json(_))));
    assert_eq!(response("[true,null]").parse().unwrap(), json("[true,null]"));
}

#[test]
fn pages_follow_their_cursors() {
    let pager = FeedPager::new("https://mmolb.com/api/feed?team=t".to_string());
    assert_eq!(pager.page_url(), "https://mmolb.com/api/feed?team=t&limit=100");
    let pager = next(pager.accept(page(&["5", "4"], Some(Some("c1")))));
    assert_eq!(pager.page_url(), "https://mmolb.com/api/feed?team=t&limit=100&cursor=c1");
    let pager = next(pager.accept(page(&["3"], Some(Some("c2")))));
    assert_eq!(pager.page_url(), "https://mmolb.com/api/feed?team=t&limit=100&cursor=c2");
    let all = events(pager.accept(page(&["2", "1"], Some(None))));
    assert_eq!(all, vec![json("1"), json("2"), json("3"), json("4"), json("5")]);
}

#[test]
fn single_page_with_null_cursor_is_turned_around() {
    let pager = FeedPager::new("u".to_string());
    assert_eq!(
        events(pager.accept(page(&["2", "1"], Some(None)))),
        vec![json("1"), json("2")]
    );
    let pager = FeedPager::new("u".to_string());
    assert!(events(pager.accept(page(&[], Some(None)))).is_empty());
}

#[test]
fn page_without_cursor_is_the_whole_feed() {
    let pager = FeedPager::new("u".to_string());
    assert_eq!(events(pager.accept(page(&["1", "2"], None))), vec![json("1"), json("2")]);
    let pager = FeedPager::new("u".to_string());
    let pager = next(pager.accept(page(&["9"], Some(Some("c")))));
    assert_eq!(events(pager.accept(page(&["1", "2"], None))), vec![json("1"), json("2")]);
}

#[test]
fn feed_is_written_as_one_document() {
    let feed = vec![json("{\"a\": [1, 2]}"), json("null"), json("\"x\\\"y\"")];
    let document = feed_document(&feed).unwrap();
    assert_eq!(document, b"{\"feed\":[{\"a\":[1,2]},null,\"x\\\"y\"]}".to_vec());
    let mut object = serde_json::Map::new();
    object.insert("feed".to_string(), Value::Array(feed));
    assert_eq!(document, serde_json::to_vec(&Value::Object(object)).unwrap());
}

#[test]
fn feed_frames() {
    assert_eq!(frame_feed(&vec![]), b"{\"feed\":[]}".to_vec());
    assert_eq!(frame_feed(&vec![b"1".to_vec()]), b"{\"feed\":[1]}".to_vec());
    assert_eq!(
        frame_feed(&vec![b"1".to_vec(), b"{}".to_vec()]),
        b"{\"feed\":[1,{}]}".to_vec()
    );
}

#[test]
fn pages_become_one_response() {
    let response = paged_response(
        "HTTPS://mmolb.com/api/feed?team=t",
        &vec![json("1")],
        at(1, 0),
        at(3, 0),
        200,
    )
    .unwrap();
    assert_eq!(response._url, "https://mmolb.com/api/feed?team=t");
    assert_eq!(response.data, b"{\"feed\":[1]}".to_vec());
    assert_eq!(response.timestamp_before, at(1, 0));
    assert_eq!(response.timestamp_after, at(3, 0));
    assert_eq!(response._status_code, 200);
    assert!(!response._was_cached);
}

#[test]
fn pages_of_no_url_are_refused() {
    match paged_response("no url", &vec![json("1")], at(1, 0), at(3, 0), 200) {
        Err(ResponseError::Url(reason)) => assert_eq!(reason, "relative URL without a base"),
        _ => panic!("there is no URL to fetch"),
    }
    match paged_response("https://", &vec![], at(1, 0), at(3, 0), 200) {
        Err(ResponseError::Url(reason)) => assert_eq!(reason, "empty host"),
        _ => panic!("there is no URL to fetch"),
    }
}
