//! The events of all feeds together, fetched in batches from a cursor on.
use crate::json::Json;
use crate::text::{i64_to_string, joined, optional_text};
use crate::timestamp::{parse_rfc3339, rfc3339_timestamp, Timestamp};
use serde_json::Value;
use vstd::prelude::*;

verus! {

/// Fetches the events of all feeds, in the order in which they happened.
pub struct PollFeeds;

/// How many events to ask for at once.
pub const FEED_EVENTS_REQUEST_LIMIT: i64 = 1000;

/// Where the events that are stored end.
#[derive(Debug)]
pub struct FeedCursor {
    pub timestamp_str: String,
    pub event_id: String,
}

/// A batch of events.
#[derive(Debug)]
pub struct FeedEvents {
    pub events: Vec<Json>,
    pub has_more: bool,
    pub limit: Option<Json>,
    pub next_cursor: Option<String>,
}

/// The contents of a batch.
pub struct FeedEventsView {
    pub events: Seq<Json>,
    pub has_more: bool,
    pub limit: Option<Json>,
    pub next_cursor: Option<Seq<char>>,
}

impl View for FeedEvents {
    type V = FeedEventsView;

    open spec fn view(&self) -> FeedEventsView {
        FeedEventsView {
            events: self.events@,
            has_more: self.has_more,
            limit: self.limit,
            next_cursor: optional_text(self.next_cursor),
        }
    }
}

/// Why a batch of events could not be stored.
#[derive(Debug)]
pub enum FeedEventError {
    /// A member of an event is not there, or is no string.
    NotAString { key: String },
    /// The time of an event is no RFC 3339 text.
    Timestamp(time::error::Parse),
}

/// How the limit that a batch reports compares with the one that was asked for.
#[derive(Clone, Copy, Debug, PartialEq, Eq, Structural)]
pub enum LimitNotice {
    AsRequested,
    Different { limit: i64 },
    NotAnInteger,
    Missing,
}

/// The members of events that are texts, in columns.
#[derive(Debug)]
pub struct TextColumns {
    pub event_ids: Vec<String>,
    pub subject_types: Vec<String>,
    pub subject_ids: Vec<String>,
    pub timestamp_strs: Vec<String>,
}

/// Events to be stored, in columns.
#[derive(Debug)]
pub struct FeedRows {
    pub event_ids: Vec<String>,
    pub subject_types: Vec<String>,
    pub subject_ids: Vec<String>,
    pub timestamps: Vec<Timestamp>,
    pub timestamp_strs: Vec<String>,
    pub request_starts: Vec<Timestamp>,
    pub request_ends: Vec<Timestamp>,
}

/// Events to be stored: what is read of each, and each as it came.
#[derive(Debug)]
pub struct FeedBatch {
    pub rows: FeedRows,
    pub events: Vec<Value>,
}

/// Why no further batch is fetched.
#[derive(Clone, Copy, Debug, PartialEq, Eq, Structural)]
pub enum FeedPollEnd {
    /// A batch held no events.
    NoEvents,
    /// A batch said that it is the last.
    NoMore,
    /// A batch did not say where the next one starts.
    NoCursor,
}

/// What to do with a batch.
#[derive(Debug)]
pub enum FeedPollStep {
    Save(FeedRows),
    Finished(FeedPollEnd),
}

/// What to do once a batch is stored.
#[derive(Debug)]
pub enum FeedPollNext {
    Fetch(FeedPoll),
    Finished(FeedPollEnd),
}

/// A poll under way: where the next batch starts.
#[derive(Debug)]
pub struct FeedPoll {
    pub cursor: Option<String>,
}

/// What is wrong with an event whose member `key` is not there, or is no string.
pub fn not_a_string_message(key: &str) -> (message: String)
    ensures
        message@ == "Event's "@ + key@ + " is missing or not a string"@,
{
    joined(joined("Event's ", key).as_str(), " is missing or not a string")
}

/// Whether every event has the member `key`, and it is a string.
pub open spec fn all_have(events: Seq<Json>, key: Seq<char>) -> bool {
    forall|i: int| 0 <= i < events.len() ==> (#[trigger] events[i]).member_text(key) is Some
}

/// Whether `column` holds the member `key` of each event.
pub open spec fn is_column(column: Seq<String>, events: Seq<Json>, key: Seq<char>) -> bool {
    &&& column.len() == events.len()
    &&& forall|i: int|
        0 <= i < events.len() ==> (#[trigger] events[i]).member_text(key) == Some(column[i]@)
}

/// The first of the members that are stored in columns which not every event has.
pub open spec fn first_missing_key(events: Seq<Json>) -> Option<Seq<char>> {
    if !all_have(events, "_id"@) {
        Some("_id"@)
    } else if !all_have(events, "subject_type"@) {
        Some("subject_type"@)
    } else if !all_have(events, "subject_id"@) {
        Some("subject_id"@)
    } else if !all_have(events, "ts"@) {
        Some("ts"@)
    } else {
        None
    }
}

/// Whether the time of every event is an RFC 3339 text.
pub open spec fn all_dated(events: Seq<Json>) -> bool {
    forall|i: int|
        0 <= i < events.len() ==> rfc3339_timestamp(
            (#[trigger] events[i]).member_text("ts"@).unwrap(),
        ) is Some
}

/// Whether every event has what is stored of it.
pub open spec fn is_storable(events: Seq<Json>) -> bool {
    first_missing_key(events) is None && all_dated(events)
}

impl TextColumns {
    /// Whether row after row holds event after event.
    pub open spec fn hold(self, events: Seq<Json>) -> bool {
        &&& is_column(self.event_ids@, events, "_id"@)
        &&& is_column(self.subject_types@, events, "subject_type"@)
        &&& is_column(self.subject_ids@, events, "subject_id"@)
        &&& is_column(self.timestamp_strs@, events, "ts"@)
    }

    /// The columns with the times that were read, for events that were fetched between `before`
    /// and `after`.
    pub fn with_timestamps(
        self,
        timestamps: Vec<Timestamp>,
        before: Timestamp,
        after: Timestamp,
    ) -> (rows: FeedRows)
        ensures
            rows.event_ids == self.event_ids,
            rows.subject_types == self.subject_types,
            rows.subject_ids == self.subject_ids,
            rows.timestamps == timestamps,
            rows.timestamp_strs == self.timestamp_strs,
            rows.request_starts@ == Seq::new(self.event_ids@.len(), |i: int| before),
            rows.request_ends@ == Seq::new(self.event_ids@.len(), |i: int| after),
    {
        let request_starts = repeated(before, self.event_ids.len());
        let request_ends = repeated(after, self.event_ids.len());
        FeedRows {
            event_ids: self.event_ids,
            subject_types: self.subject_types,
            subject_ids: self.subject_ids,
            timestamps,
            timestamp_strs: self.timestamp_strs,
            request_starts,
            request_ends,
        }
    }
}

impl FeedRows {
    /// Whether row after row holds event after event, fetched between `before` and `after`.
    pub open spec fn hold(self, events: Seq<Json>, before: Timestamp, after: Timestamp) -> bool {
        &&& is_column(self.event_ids@, events, "_id"@)
        &&& is_column(self.subject_types@, events, "subject_type"@)
        &&& is_column(self.subject_ids@, events, "subject_id"@)
        &&& is_column(self.timestamp_strs@, events, "ts"@)
        &&& self.timestamps@.len() == events.len()
        &&& forall|i: int|
            0 <= i < events.len() ==> rfc3339_timestamp(#[trigger] self.timestamp_strs@[i]@)
                == Some(self.timestamps@[i])
        &&& self.request_starts@ == Seq::new(events.len(), |i: int| before)
        &&& self.request_ends@ == Seq::new(events.len(), |i: int| after)
    }

    /// The rows together with the events that they were read from, as these came. There must be
    /// one event to each row.
    pub fn with_events(self, events: Vec<Value>) -> (batch: Option<FeedBatch>)
        ensures
            batch is Some <==> events@.len() == self.event_ids@.len(),
            batch matches Some(b) ==> b.rows == self && b.events == events,
            batch matches Some(b) ==> forall|read: Seq<Json>, before: Timestamp, after: Timestamp| #[trigger]
                self.hold(read, before, after) ==> b.holds(read, events@, before, after),
    {
        if events.len() == self.event_ids.len() {
            Some(FeedBatch { rows: self, events })
        } else {
            None
        }
    }
}

impl FeedBatch {
    /// Whether row after row holds event after event, fetched between `before` and `after`, and
    /// beside each row stands the event as it came.
    pub open spec fn holds(
        self,
        events: Seq<Json>,
        received: Seq<Value>,
        before: Timestamp,
        after: Timestamp,
    ) -> bool {
        &&& self.rows.hold(events, before, after)
        &&& self.events@ == received
        &&& received.len() == events.len()
    }
}

/// The member `key` of each event, as text.
pub fn str_from_json_value(events: &Vec<Json>, key: &str) -> (column: Result<
    Vec<String>,
    FeedEventError,
>)
    ensures
        match column {
            Ok(c) => is_column(c@, events@, key@),
            Err(FeedEventError::NotAString { key: missing }) => missing@ == key@ && !all_have(
                events@,
                key@,
            ),
            Err(_) => false,
        },
        match column {
            Ok(c) => c@.len() == events@.len() && forall|i: int|
                0 <= i < events@.len() ==> (#[trigger] events@[i]).member_text(key@) == Some(c@[i]@),
            Err(_) => exists|i: int|
                0 <= i < events@.len() && (#[trigger] events@[i]).member_text(key@) is None,
        },
{
    let mut column: Vec<String> = Vec::new();
    for i in 0..events.len()
        invariant
            column@.len() == i,
            forall|j: int|
                0 <= j < i ==> (#[trigger] events@[j]).member_text(key@) == Some(column@[j]@),
    {
        let text: Option<&str> = match events[i].member(key) {
            Some(value) => value.as_str(),
            None => None,
        };
        match text {
            Some(text) => {
                column.push(text.to_owned());
            },
            None => {
                assert(events@[i as int].member_text(key@) is None);
                return Err(FeedEventError::NotAString { key: key.to_owned() });
            },
        }
    }
    Ok(column)
}

/// The point in time that each text denotes.
pub fn parse_timestamps(timestamp_strs: &Vec<String>) -> (timestamps: Result<
    Vec<Timestamp>,
    FeedEventError,
>)
    ensures
        match timestamps {
            Ok(t) => {
                &&& t@.len() == timestamp_strs@.len()
                &&& forall|i: int|
                    0 <= i < t@.len() ==> rfc3339_timestamp(#[trigger] timestamp_strs@[i]@)
                        == Some(t@[i])
            },
            Err(FeedEventError::Timestamp(_)) => exists|i: int|
                0 <= i < timestamp_strs@.len() && rfc3339_timestamp(
                    #[trigger] timestamp_strs@[i]@,
                ) is None,
            Err(_) => false,
        },
{
    let mut timestamps: Vec<Timestamp> = Vec::new();
    for i in 0..timestamp_strs.len()
        invariant
            timestamps@.len() == i,
            forall|j: int|
                0 <= j < i ==> rfc3339_timestamp(#[trigger] timestamp_strs@[j]@) == Some(
                    timestamps@[j],
                ),
    {
        match parse_rfc3339(timestamp_strs[i].as_str()) {
            Ok(timestamp) => {
                timestamps.push(timestamp);
            },
            Err(e) => {
                assert(rfc3339_timestamp(timestamp_strs@[i as int]@) is None);
                return Err(FeedEventError::Timestamp(e));
            },
        }
    }
    Ok(timestamps)
}

/// `n` times the same point in time.
fn repeated(timestamp: Timestamp, n: usize) -> (all: Vec<Timestamp>)
    ensures
        all@ == Seq::new(n as nat, |i: int| timestamp),
{
    let mut all: Vec<Timestamp> = Vec::new();
    for i in 0..n
        invariant
            all@ == Seq::new(i as nat, |j: int| timestamp),
    {
        all.push(timestamp);
        assert(all@ =~= Seq::new((i + 1) as nat, |j: int| timestamp));
    }
    all
}

/// The members of events that are stored as texts.
///
/// They are read one after the other, each of all events; the first that some event lacks is
/// reported.
pub fn text_columns(events: &Vec<Json>) -> (columns: Result<TextColumns, FeedEventError>)
    ensures
        match columns {
            Ok(c) => first_missing_key(events@) is None && c.hold(events@),
            Err(FeedEventError::NotAString { key }) => first_missing_key(events@) == Some(key@),
            Err(_) => false,
        },
        columns matches Ok(r) ==> {
            &&& r.event_ids@.len() == events@.len()
            &&& r.subject_types@.len() == events@.len()
            &&& r.subject_ids@.len() == events@.len()
            &&& r.timestamp_strs@.len() == events@.len()
            &&& forall|i: int|
                0 <= i < events@.len() ==> {
                    let event = #[trigger] events@[i];
                    &&& event.member_text("_id"@) == Some(r.event_ids@[i]@)
                    &&& event.member_text("subject_type"@) == Some(r.subject_types@[i]@)
                    &&& event.member_text("subject_id"@) == Some(r.subject_ids@[i]@)
                    &&& event.member_text("ts"@) == Some(r.timestamp_strs@[i]@)
                }
        },
{
    let event_ids = match str_from_json_value(events, "_id") {
        Ok(column) => column,
        Err(e) => {
            return Err(e);
        },
    };
    let subject_types = match str_from_json_value(events, "subject_type") {
        Ok(column) => column,
        Err(e) => {
            return Err(e);
        },
    };
    let subject_ids = match str_from_json_value(events, "subject_id") {
        Ok(column) => column,
        Err(e) => {
            return Err(e);
        },
    };
    let timestamp_strs = match str_from_json_value(events, "ts") {
        Ok(column) => column,
        Err(e) => {
            return Err(e);
        },
    };
    Ok(TextColumns { event_ids, subject_types, subject_ids, timestamp_strs })
}

/// The columns under which events are stored: the texts first, then the times that they give.
pub fn feed_rows(events: &Vec<Json>, before: Timestamp, after: Timestamp) -> (rows: Result<
    FeedRows,
    FeedEventError,
>)
    ensures
        match rows {
            Ok(r) => r.hold(events@, before, after),
            Err(FeedEventError::NotAString { key }) => first_missing_key(events@) == Some(key@),
            Err(FeedEventError::Timestamp(_)) => first_missing_key(events@) is None && !all_dated(
                events@,
            ),
        },
        rows is Ok <==> is_storable(events@),
        rows matches Ok(r) ==> {
            &&& r.event_ids@.len() == events@.len()
            &&& r.subject_types@.len() == events@.len()
            &&& r.subject_ids@.len() == events@.len()
            &&& r.timestamp_strs@.len() == events@.len()
            &&& r.timestamps@.len() == events@.len()
            &&& r.request_starts@.len() == events@.len()
            &&& r.request_ends@.len() == events@.len()
            &&& forall|i: int|
                0 <= i < events@.len() ==> {
                    let event = #[trigger] events@[i];
                    &&& event.member_text("_id"@) == Some(r.event_ids@[i]@)
                    &&& event.member_text("subject_type"@) == Some(r.subject_types@[i]@)
                    &&& event.member_text("subject_id"@) == Some(r.subject_ids@[i]@)
                    &&& event.member_text("ts"@) == Some(r.timestamp_strs@[i]@)
                    &&& rfc3339_timestamp(r.timestamp_strs@[i]@) == Some(r.timestamps@[i])
                    &&& r.request_starts@[i] == before
                    &&& r.request_ends@[i] == after
                }
        },
{
    let columns = match text_columns(events) {
        Ok(columns) => columns,
        Err(e) => {
            return Err(e);
        },
    };
    let ghost strs = columns.timestamp_strs@;
    match parse_timestamps(&columns.timestamp_strs) {
        Ok(timestamps) => {
            assert forall|i: int| 0 <= i < events@.len() implies rfc3339_timestamp(
                (#[trigger] events@[i]).member_text("ts"@).unwrap(),
            ) is Some by {
                assert(rfc3339_timestamp(strs[i]@) == Some(timestamps@[i]));
            }
            Ok(columns.with_timestamps(timestamps, before, after))
        },
        Err(e) => {
            proof {
                let i = choose|i: int|
                    0 <= i < strs.len() && rfc3339_timestamp(#[trigger] strs[i]@) is None;
                assert(events@[i].member_text("ts"@) == Some(strs[i]@));
            }
            Err(e)
        },
    }
}

/// The cursor at which stored events end, as the source writes it.
pub open spec fn cursor_text(stored: Option<FeedCursor>) -> Option<Seq<char>> {
    match stored {
        Some(cursor) => Some(cursor.timestamp_str@ + "|"@ + cursor.event_id@),
        None => None,
    }
}

/// The URL of the batch that starts at `cursor`, or of the first batch where there is none.
pub open spec fn events_url_text(cursor: Option<Seq<char>>) -> Seq<char> {
    let url = "https://mmolb.com/api/feed/events"@ + "?limit="@ + crate::text::decimal(
        FEED_EVENTS_REQUEST_LIMIT as int,
    );
    match cursor {
        Some(c) => url + "&cursor="@ + c,
        None => url,
    }
}

/// Why the poll ends with this batch, once it is stored.
pub open spec fn end_after(batch: FeedEventsView) -> Option<FeedPollEnd> {
    if !batch.has_more {
        Some(FeedPollEnd::NoMore)
    } else if batch.next_cursor is None {
        Some(FeedPollEnd::NoCursor)
    } else {
        None
    }
}

impl PollFeeds {
    /// How often, in seconds, new events are fetched.
    pub fn interval() -> (seconds: u64)
        ensures
            seconds == 15 * 60,
    {
        15 * 60
    }

    /// How the limit that a batch reports compares with the one that was asked for.
    pub fn limit_notice(container: &FeedEvents) -> (notice: LimitNotice)
        ensures
            notice == match container@.limit {
                Some(value) => match value.integer() {
                    Some(n) => if n == FEED_EVENTS_REQUEST_LIMIT {
                        LimitNotice::AsRequested
                    } else {
                        LimitNotice::Different { limit: n }
                    },
                    None => LimitNotice::NotAnInteger,
                },
                None => LimitNotice::Missing,
            },
            notice == LimitNotice::Missing <==> container.limit is None,
            container.limit matches Some(value) ==> (value.integer() matches Some(n) ==> notice
                == if n == 1000 {
                LimitNotice::AsRequested
            } else {
                LimitNotice::Different { limit: n }
            }),
            container.limit matches Some(value) ==> (value.integer() is None ==> notice
                == LimitNotice::NotAnInteger),
    {
        match &container.limit {
            Some(value) => match value.as_i64() {
                Some(n) => if n == FEED_EVENTS_REQUEST_LIMIT {
                    LimitNotice::AsRequested
                } else {
                    LimitNotice::Different { limit: n }
                },
                None => LimitNotice::NotAnInteger,
            },
            None => LimitNotice::Missing,
        }
    }

    /// What to do with a batch that was fetched between `before` and `after`: store it, or stop
    /// where it is empty.
    pub fn on_response(
        container: &FeedEvents,
        before: Timestamp,
        after: Timestamp,
    ) -> (step: Result<FeedPollStep, FeedEventError>)
        ensures
            match step {
                Ok(FeedPollStep::Finished(end)) => container@.events.len() == 0 && end
                    == FeedPollEnd::NoEvents,
                Ok(FeedPollStep::Save(rows)) => container@.events.len() > 0 && rows.hold(
                    container@.events,
                    before,
                    after,
                ),
                Err(FeedEventError::NotAString { key }) => first_missing_key(container@.events)
                    == Some(key@),
                Err(FeedEventError::Timestamp(_)) => first_missing_key(container@.events) is None
                    && !all_dated(container@.events),
            },
            step is Ok <==> is_storable(container@.events),
            container.events@.len() == 0 ==> (step matches Ok(FeedPollStep::Finished(end)) && end
                == FeedPollEnd::NoEvents),
            container.events@.len() > 0 ==> !(step matches Ok(FeedPollStep::Finished(_))),
            step matches Ok(FeedPollStep::Save(r)) ==> {
                &&& r.event_ids@.len() == container.events@.len()
                &&& r.subject_types@.len() == container.events@.len()
                &&& r.subject_ids@.len() == container.events@.len()
                &&& r.timestamp_strs@.len() == container.events@.len()
                &&& r.timestamps@.len() == container.events@.len()
                &&& r.request_starts@.len() == container.events@.len()
                &&& r.request_ends@.len() == container.events@.len()
                &&& forall|i: int|
                    0 <= i < container.events@.len() ==> {
                        let event = #[trigger] container.events@[i];
                        &&& event.member_text("_id"@) == Some(r.event_ids@[i]@)
                        &&& event.member_text("subject_type"@) == Some(r.subject_types@[i]@)
                        &&& event.member_text("subject_id"@) == Some(r.subject_ids@[i]@)
                        &&& event.member_text("ts"@) == Some(r.timestamp_strs@[i]@)
                        &&& rfc3339_timestamp(r.timestamp_strs@[i]@) == Some(r.timestamps@[i])
                        &&& r.request_starts@[i] == before
                        &&& r.request_ends@[i] == after
                    }
            },
    {
        if container.events.is_empty() {
            return Ok(FeedPollStep::Finished(FeedPollEnd::NoEvents));
        }
        match feed_rows(&container.events, before, after) {
            Ok(rows) => Ok(FeedPollStep::Save(rows)),
            Err(e) => Err(e),
        }
    }

    /// What to do once a batch is stored: fetch the batch that it names, or stop.
    pub fn on_saved(container: FeedEvents) -> (next: FeedPollNext)
        ensures
            match next {
                FeedPollNext::Finished(end) => end_after(container@) == Some(end),
                FeedPollNext::Fetch(poll) => end_after(container@) is None && optional_text(
                    poll.cursor,
                ) == container@.next_cursor,
            },
            next is Fetch <==> container.has_more && container.next_cursor is Some,
            next matches FeedPollNext::Fetch(poll) ==> poll.cursor == container.next_cursor,
            next matches FeedPollNext::Finished(end) ==> end == if container.has_more {
                FeedPollEnd::NoCursor
            } else {
                FeedPollEnd::NoMore
            },
    {
        if !container.has_more {
            return FeedPollNext::Finished(FeedPollEnd::NoMore);
        }
        match container.next_cursor {
            Some(next_cursor) => FeedPollNext::Fetch(FeedPoll { cursor: Some(next_cursor) }),
            None => FeedPollNext::Finished(FeedPollEnd::NoCursor),
        }
    }
}

impl FeedPoll {
    /// Starts where the stored events end.
    pub fn new(stored: Option<FeedCursor>) -> (poll: FeedPoll)
        ensures
            optional_text(poll.cursor) == cursor_text(stored),
            poll.cursor is Some <==> stored is Some,
            stored matches Some(cursor) ==> poll.cursor->0@ == cursor.timestamp_str@ + "|"@
                + cursor.event_id@,
    {
        match stored {
            Some(stored) => {
                let start = joined(stored.timestamp_str.as_str(), "|");
                FeedPoll { cursor: Some(joined(start.as_str(), stored.event_id.as_str())) }
            },
            None => FeedPoll { cursor: None },
        }
    }

    /// The URL of the batch to fetch.
    pub fn url(&self) -> (url: String)
        ensures
            url@ == events_url_text(optional_text(self.cursor)),
            self.cursor is None ==> url@ == "https://mmolb.com/api/feed/events?limit=1000"@,
            self.cursor matches Some(cursor) ==> url@
                == "https://mmolb.com/api/feed/events?limit=1000"@ + "&cursor="@ + cursor@,
    {
        proof {
            law_events_url_carries_the_cursor(Seq::empty());
        }
        let start = joined("https://mmolb.com/api/feed/events", "?limit=");
        let url = joined(start.as_str(), i64_to_string(FEED_EVENTS_REQUEST_LIMIT).as_str());
        match &self.cursor {
            Some(cursor) => {
                let start = joined(url.as_str(), "&cursor=");
                joined(start.as_str(), cursor.as_str())
            },
            None => url,
        }
    }
}

/// Everything that is stored of a batch is a list with one item to each event.
pub proof fn law_stored_lists_line_up(
    batch: FeedBatch,
    events: Seq<Json>,
    received: Seq<Value>,
    before: Timestamp,
    after: Timestamp,
)
    requires
        batch.holds(events, received, before, after),
    ensures
        batch.rows.event_ids@.len() == events.len(),
        batch.rows.subject_types@.len() == events.len(),
        batch.rows.subject_ids@.len() == events.len(),
        batch.rows.timestamps@.len() == events.len(),
        batch.rows.timestamp_strs@.len() == events.len(),
        batch.rows.request_starts@.len() == events.len(),
        batch.rows.request_ends@.len() == events.len(),
        batch.events@.len() == events.len(),
{
}

/// Whether another batch is fetched after this one.
pub open spec fn continues(batch: FeedEventsView) -> bool {
    &&& batch.events.len() > 0
    &&& is_storable(batch.events)
    &&& end_after(batch) is None
}

/// The events that a poll stores whose batches come in this order. A batch that cannot be stored
/// ends the poll, and one after the end is never fetched.
pub open spec fn stored_events(batches: Seq<FeedEventsView>) -> Seq<Json>
    decreases batches.len(),
{
    if batches.len() == 0 {
        Seq::empty()
    } else if continues(batches[0]) {
        batches[0].events + stored_events(batches.drop_first())
    } else if is_storable(batches[0].events) {
        batches[0].events
    } else {
        Seq::empty()
    }
}

/// The events of all batches, one after the other.
pub open spec fn batch_events(batches: Seq<FeedEventsView>) -> Seq<Json>
    decreases batches.len(),
{
    if batches.len() == 0 {
        Seq::empty()
    } else {
        batches[0].events + batch_events(batches.drop_first())
    }
}

/// While each batch leads to another, a poll stores all of their events and then whatever the
/// batches after them make it store: no event is skipped or stored twice between two batches.
pub proof fn law_poll_stores_batch_after_batch(
    batches: Seq<FeedEventsView>,
    rest: Seq<FeedEventsView>,
)
    requires
        forall|i: int| 0 <= i < batches.len() ==> continues(#[trigger] batches[i]),
    ensures
        stored_events(batches + rest) == batch_events(batches) + stored_events(rest),
    decreases batches.len(),
{
    if batches.len() == 0 {
        assert(batches + rest =~= rest);
        assert(batch_events(batches) + stored_events(rest) =~= stored_events(rest));
    } else {
        let all = batches + rest;
        assert(all[0] == batches[0]);
        assert(all.drop_first() =~= batches.drop_first() + rest);
        law_poll_stores_batch_after_batch(batches.drop_first(), rest);
        assert(stored_events(all) =~= batch_events(batches) + stored_events(rest));
    }
}

/// A poll ends with the first batch that does not lead to another: its events are stored, all of
/// them or, where one of them cannot be, none, and nothing that would come after it.
pub proof fn law_poll_ends_with_last_batch(
    batches: Seq<FeedEventsView>,
    last: FeedEventsView,
    unseen: Seq<FeedEventsView>,
)
    requires
        forall|i: int| 0 <= i < batches.len() ==> continues(#[trigger] batches[i]),
        !continues(last),
    ensures
        stored_events(batches + (seq![last] + unseen)) == batch_events(batches) + if is_storable(
            last.events,
        ) {
            last.events
        } else {
            Seq::empty()
        },
{
    law_poll_stores_batch_after_batch(batches, seq![last] + unseen);
    assert((seq![last] + unseen)[0] == last);
}

/// The URL of the events asks for a thousand of them, from the cursor on where there is one.
pub proof fn law_events_url_carries_the_cursor(cursor: Seq<char>)
    ensures
        events_url_text(None) == "https://mmolb.com/api/feed/events?limit=1000"@,
        events_url_text(Some(cursor)) == "https://mmolb.com/api/feed/events?limit=1000"@
            + "&cursor="@ + cursor,
{
    reveal_strlit("https://mmolb.com/api/feed/events");
    reveal_strlit("?limit=");
    reveal_strlit("https://mmolb.com/api/feed/events?limit=1000");
    reveal_with_fuel(crate::text::decimal_digits, 4);
    assert(crate::text::decimal(1000) =~= seq!['1', '0', '0', '0']);
    assert(events_url_text(None) =~= "https://mmolb.com/api/feed/events?limit=1000"@);
}

/// The stored events end at a cursor that is the text of a time, a bar, and the id of an event.
pub proof fn law_cursor_is_time_and_event(stored: Option<FeedCursor>)
    ensures
        cursor_text(stored) is Some <==> stored is Some,
        stored matches Some(cursor) ==> cursor_text(stored) == Some(
            cursor.timestamp_str@ + "|"@ + cursor.event_id@,
        ),
{
}

/// After a stored batch the poll goes on exactly where the batch says that there is more and where
/// it starts, whatever events it holds.
pub proof fn law_poll_goes_on_while_there_is_more(batch: FeedEventsView, other: FeedEventsView)
    ensures
        end_after(batch) is None <==> batch.has_more && batch.next_cursor is Some,
        end_after(batch) == Some(FeedPollEnd::NoMore) <==> !batch.has_more,
        end_after(batch) == Some(FeedPollEnd::NoCursor) <==> batch.has_more && batch.next_cursor
            is None,
        batch.has_more == other.has_more && (batch.next_cursor is Some <==> other.next_cursor
            is Some) ==> end_after(batch) == end_after(other),
{
}

/// Another batch is fetched exactly after one that holds events, all of which can be stored, and
/// that says that there is more and where it starts.
pub proof fn law_batch_continues_where_it_says_so(batch: FeedEventsView)
    ensures
        continues(batch) <==> batch.events.len() > 0 && is_storable(batch.events) && batch.has_more
            && batch.next_cursor is Some,
{
}

/// Events can be stored exactly where each of them has the four texts, and its time is an RFC 3339
/// text.
pub proof fn law_storable_events_have_four_texts(events: Seq<Json>)
    ensures
        is_storable(events) <==> forall|i: int|
            0 <= i < events.len() ==> {
                let event = #[trigger] events[i];
                &&& event.member_text("_id"@) is Some
                &&& event.member_text("subject_type"@) is Some
                &&& event.member_text("subject_id"@) is Some
                &&& event.member_text("ts"@) is Some
                &&& rfc3339_timestamp(event.member_text("ts"@)->0) is Some
            },
{
    if is_storable(events) {
        assert forall|i: int| 0 <= i < events.len() implies {
            let event = #[trigger] events[i];
            &&& event.member_text("_id"@) is Some
            &&& event.member_text("subject_type"@) is Some
            &&& event.member_text("subject_id"@) is Some
            &&& event.member_text("ts"@) is Some
            &&& rfc3339_timestamp(event.member_text("ts"@)->0) is Some
        } by {
            assert(all_have(events, "_id"@) && all_have(events, "subject_type"@));
            assert(all_have(events, "subject_id"@) && all_have(events, "ts"@));
        }
    }
}

/// The member that is reported is one of the four that some event lacks, while every event has
/// those that are read before it: the id, the type of the subject, its id, and the time.
pub proof fn law_first_missing_member_is_reported(events: Seq<Json>, key: Seq<char>)
    requires
        first_missing_key(events) == Some(key),
    ensures
        exists|i: int| 0 <= i < events.len() && (#[trigger] events[i]).member_text(key) is None,
        key == "_id"@ || key == "subject_type"@ || key == "subject_id"@ || key == "ts"@,
        key != "_id"@ ==> forall|i: int|
            0 <= i < events.len() ==> (#[trigger] events[i]).member_text("_id"@) is Some,
        key == "subject_id"@ || key == "ts"@ ==> forall|i: int|
            0 <= i < events.len() ==> (#[trigger] events[i]).member_text("subject_type"@) is Some,
        key == "ts"@ ==> forall|i: int|
            0 <= i < events.len() ==> (#[trigger] events[i]).member_text("subject_id"@) is Some,
{
    reveal_strlit("_id");
    reveal_strlit("subject_type");
    reveal_strlit("subject_id");
    reveal_strlit("ts");
    assert("_id"@.len() == 3 && "subject_type"@.len() == 12 && "subject_id"@.len() == 10
        && "ts"@.len() == 2);
}

/// A batch is seen as it stands.
pub proof fn law_batch_is_seen_whole(batch: FeedEvents)
    ensures
        batch@.events == batch.events@,
        batch@.has_more == batch.has_more,
        batch@.limit == batch.limit,
        batch@.next_cursor is Some <==> batch.next_cursor is Some,
        batch.next_cursor matches Some(cursor) ==> batch@.next_cursor == Some(cursor@),
{
}

/// A poll of one batch stores all of its events, or none where one of them cannot be stored; the
/// events of batches are those of each, batch after batch.
pub proof fn law_one_batch_is_stored_whole(
    batch: FeedEventsView,
    first: Seq<FeedEventsView>,
    second: Seq<FeedEventsView>,
)
    ensures
        is_storable(batch.events) ==> stored_events(seq![batch]) == batch.events,
        !is_storable(batch.events) ==> stored_events(seq![batch]).len() == 0,
        batch_events(seq![batch]) == batch.events,
        batch_events(first + second) == batch_events(first) + batch_events(second),
    decreases first.len(),
{
    reveal_with_fuel(stored_events, 2);
    reveal_with_fuel(batch_events, 2);
    assert(seq![batch].drop_first() =~= Seq::empty());
    assert(batch.events + Seq::<Json>::empty() =~= batch.events);
    if first.len() == 0 {
        assert(first + second =~= second);
        assert(batch_events(first) + batch_events(second) =~= batch_events(second));
    } else {
        law_one_batch_is_stored_whole(batch, first.drop_first(), second);
        assert((first + second).drop_first() =~= first.drop_first() + second);
        assert(batch_events(first + second) =~= batch_events(first) + batch_events(second));
    }
}

} // verus!
