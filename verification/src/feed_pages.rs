//! A feed that comes in pages: which page to ask for next, and the events in the order in which
//! they happened.
use crate::http::{ClientResponse, ResponseError};
use crate::json::{json_bytes, json_to_vec};
use crate::text::{joined, optional_text};
use crate::timestamp::Timestamp;
use serde_json::Value;
use vstd::prelude::*;
use vstd::string::*;
use vstd::utf8::*;

verus! {

/// How long, in milliseconds, to wait between two pages.
pub const PAGE_PAUSE_MILLIS: u64 = 250;

/// One page of a feed.
#[derive(Debug)]
pub struct FeedHolder {
    pub feed: Vec<Value>,
    /// Whether the page has the field at all, and if so, whether it is null.
    pub next_cursor: Option<Option<String>>,
}

/// The contents of a page.
pub struct FeedHolderView {
    pub feed: Seq<Value>,
    pub next_cursor: Option<Option<Seq<char>>>,
}

impl View for FeedHolder {
    type V = FeedHolderView;

    open spec fn view(&self) -> FeedHolderView {
        FeedHolderView {
            feed: self.feed@,
            next_cursor: match self.next_cursor {
                Some(cursor) => Some(optional_text(cursor)),
                None => None,
            },
        }
    }
}

/// A paged feed that is being fetched: where the next page starts, and the events so far, the
/// latest first.
#[derive(Debug)]
pub struct FeedPager {
    base_url: String,
    cursor: Option<String>,
    fetched_events_reverse: Vec<Value>,
}

/// The contents of a `FeedPager`.
pub struct FeedPagerView {
    pub base_url: Seq<char>,
    pub cursor: Option<Seq<char>>,
    pub fetched: Seq<Value>,
}

impl View for FeedPager {
    type V = FeedPagerView;

    closed spec fn view(&self) -> FeedPagerView {
        FeedPagerView {
            base_url: self.base_url@,
            cursor: optional_text(self.cursor),
            fetched: self.fetched_events_reverse@,
        }
    }
}

/// What a page leads to.
#[derive(Debug)]
pub enum PageOutcome {
    /// There is another page to fetch, after a pause.
    NextPage(FeedPager),
    /// The feed is complete: its events, the earliest first.
    Complete(Vec<Value>),
}

/// The contents of a `PageOutcome`.
pub enum PageOutcomeView {
    NextPage(FeedPagerView),
    Complete(Seq<Value>),
}

impl View for PageOutcome {
    type V = PageOutcomeView;

    open spec fn view(&self) -> PageOutcomeView {
        match *self {
            PageOutcome::NextPage(pager) => PageOutcomeView::NextPage(pager@),
            PageOutcome::Complete(events) => PageOutcomeView::Complete(events@),
        }
    }
}

/// A feed of which no page was fetched yet.
pub open spec fn first_page(base_url: Seq<char>) -> FeedPagerView {
    FeedPagerView { base_url, cursor: None, fetched: Seq::empty() }
}

/// The URL of the page that starts at `cursor`, or of the first page where there is none.
pub open spec fn page_url_text(base_url: Seq<char>, cursor: Option<Seq<char>>) -> Seq<char> {
    match cursor {
        Some(c) => base_url + "&limit=100&cursor="@ + c,
        None => base_url + "&limit=100"@,
    }
}

/// What a page leads to.
///
/// A page with a cursor adds its events and names the next page. One whose cursor is null is the
/// last: with its events added, all of them are turned around. A page without the field is a
/// whole feed by itself, already in order.
pub open spec fn accept_page(pager: FeedPagerView, page: FeedHolderView) -> PageOutcomeView {
    match page.next_cursor {
        Some(Some(cursor)) => PageOutcomeView::NextPage(
            FeedPagerView {
                base_url: pager.base_url,
                cursor: Some(cursor),
                fetched: pager.fetched + page.feed,
            },
        ),
        Some(None) => PageOutcomeView::Complete((pager.fetched + page.feed).reverse()),
        None => PageOutcomeView::Complete(page.feed),
    }
}

/// The items of a list in the opposite order.
fn reversed(items: Vec<Value>) -> (turned: Vec<Value>)
    ensures
        turned@ == items@.reverse(),
{
    let ghost all = items@;
    let mut rest = items;
    let mut turned: Vec<Value> = Vec::new();
    while rest.len() > 0
        invariant
            rest@.len() + turned@.len() == all.len(),
            rest@ == all.take(rest@.len() as int),
            forall|i: int| 0 <= i < turned@.len() ==> turned@[i] == all[all.len() - 1 - i],
        decreases rest.len(),
    {
        if let Some(item) = rest.pop() {
            turned.push(item);
        }
    }
    assert(turned@ =~= all.reverse());
    turned
}

impl FeedPager {
    /// Starts with the first page of the feed at `base_url`.
    pub fn new(base_url: String) -> (pager: FeedPager)
        ensures
            pager@ == first_page(base_url@),
            pager@.base_url == base_url@,
            pager@.cursor is None,
            pager@.fetched.len() == 0,
    {
        FeedPager { base_url, cursor: None, fetched_events_reverse: Vec::new() }
    }

    /// The URL of the page to fetch.
    pub fn page_url(&self) -> (url: String)
        ensures
            url@ == page_url_text(self@.base_url, self@.cursor),
            self@.cursor matches Some(c) ==> url@ == self@.base_url + "&limit=100&cursor="@ + c,
            self@.cursor is None ==> url@ == self@.base_url + "&limit=100"@,
    {
        match &self.cursor {
            Some(cursor) => {
                let start = joined(self.base_url.as_str(), "&limit=100&cursor=");
                joined(start.as_str(), cursor.as_str())
            },
            None => joined(self.base_url.as_str(), "&limit=100"),
        }
    }

    /// Takes the page in that was asked for.
    pub fn accept(self, page: FeedHolder) -> (outcome: PageOutcome)
        ensures
            outcome@ == accept_page(self@, page@),
            match page.next_cursor {
                Some(Some(cursor)) => match outcome {
                    PageOutcome::NextPage(next) => {
                        &&& next@.base_url == self@.base_url
                        &&& next@.cursor == Some(cursor@)
                        &&& next@.fetched == self@.fetched + page.feed@
                    },
                    PageOutcome::Complete(_) => false,
                },
                Some(None) => match outcome {
                    PageOutcome::NextPage(_) => false,
                    PageOutcome::Complete(events) => {
                        let n = self@.fetched.len() + page.feed@.len();
                        &&& events@.len() == n
                        &&& forall|i: int|
                            0 <= i < self@.fetched.len() ==> events@[n - 1 - i]
                                == #[trigger] self@.fetched[i]
                        &&& forall|i: int|
                            0 <= i < page.feed@.len() ==> events@[page.feed@.len() - 1 - i]
                                == #[trigger] page.feed@[i]
                    },
                },
                None => match outcome {
                    PageOutcome::NextPage(_) => false,
                    PageOutcome::Complete(events) => events@ == page.feed@,
                },
            },
    {
        let FeedPager { base_url, cursor: _, mut fetched_events_reverse } = self;
        let FeedHolder { mut feed, next_cursor } = page;
        match next_cursor {
            Some(next_cursor) => {
                fetched_events_reverse.append(&mut feed);
                match next_cursor {
                    Some(next_cursor) => PageOutcome::NextPage(
                        FeedPager { base_url, cursor: Some(next_cursor), fetched_events_reverse },
                    ),
                    None => PageOutcome::Complete(reversed(fetched_events_reverse)),
                }
            },
            None => PageOutcome::Complete(feed),
        }
    }
}

/// The bytes of each event.
pub open spec fn event_bytes(events: Seq<Value>) -> Seq<Seq<u8>> {
    events.map_values(|event: Value| json_bytes(event))
}

/// The items one after the other, with a comma between two of them.
pub open spec fn comma_separated(items: Seq<Seq<u8>>) -> Seq<u8>
    decreases items.len(),
{
    if items.len() == 0 {
        Seq::empty()
    } else if items.len() == 1 {
        items[0]
    } else {
        comma_separated(items.drop_last()) + encode_utf8(","@) + items.last()
    }
}

/// A JSON object with the one member `feed`, an array of the items.
pub open spec fn feed_document_bytes(items: Seq<Seq<u8>>) -> Seq<u8> {
    encode_utf8("{\"feed\":["@) + comma_separated(items) + encode_utf8("]}"@)
}

/// Adds the bytes of `text` to `out`.
fn push_text(out: &mut Vec<u8>, text: &str)
    ensures
        final(out)@ == old(out)@ + encode_utf8(text@),
{
    out.extend_from_slice(text.as_bytes());
    assert(out@ =~= old(out)@ + encode_utf8(text@));
}

/// Puts items that are JSON already into a document with the one member `feed`.
pub fn frame_feed(items: &Vec<Vec<u8>>) -> (document: Vec<u8>)
    ensures
        document@ == feed_document_bytes(items@.map_values(|item: Vec<u8>| item@)),
        document@ == encode_utf8("{\"feed\":["@) + comma_separated(
            Seq::new(items@.len(), |i: int| items@[i]@),
        ) + encode_utf8("]}"@),
{
    assert(items@.map_values(|item: Vec<u8>| item@) =~= Seq::new(items@.len(), |i: int| items@[i]@));
    let mut document: Vec<u8> = Vec::new();
    push_text(&mut document, "{\"feed\":[");
    let ghost opened = document@;
    let ghost views = items@.map_values(|item: Vec<u8>| item@);
    for i in 0..items.len()
        invariant
            views == items@.map_values(|item: Vec<u8>| item@),
            document@ == opened + comma_separated(views.take(i as int)),
    {
        if i > 0 {
            push_text(&mut document, ",");
        }
        document.extend_from_slice(items[i].as_slice());
        proof {
            let next = views.take(i + 1);
            assert(next.drop_last() == views.take(i as int));
            assert(document@ =~= opened + comma_separated(next));
        }
    }
    assert(views.take(items@.len() as int) == views);
    push_text(&mut document, "]}");
    document
}

/// A whole feed as one JSON document, as if it had come in a single response.
pub fn feed_document(events: &Vec<Value>) -> (document: Result<Vec<u8>, ResponseError>)
    ensures
        document matches Ok(bytes) && bytes@ == feed_document_bytes(event_bytes(events@)),
        document matches Ok(bytes) && bytes@ == encode_utf8("{\"feed\":["@) + comma_separated(
            Seq::new(events@.len(), |i: int| json_bytes(events@[i])),
        ) + encode_utf8("]}"@),
{
    assert(event_bytes(events@) =~= Seq::new(events@.len(), |i: int| json_bytes(events@[i])));
    let mut items: Vec<Vec<u8>> = Vec::new();
    for i in 0..events.len()
        invariant
            items.len() == i,
            forall|j: int| 0 <= j < i ==> json_bytes(#[trigger] events@[j]) == items@[j]@,
    {
        match json_to_vec(&events[i]) {
            Ok(bytes) => {
                items.push(bytes);
            },
            Err(e) => {
                return Err(ResponseError::Json(e));
            },
        }
    }
    assert(items@.map_values(|item: Vec<u8>| item@) =~= event_bytes(events@));
    Ok(frame_feed(&items))
}

/// What a text is as a URL, as `url` reads it: the serialization of the URL, or, in words, why it
/// is none.
pub uninterp spec fn parsed_url(text: Seq<char>) -> Result<Seq<char>, Seq<char>>;

/// Calls `reqwest::Url::parse` and keeps the text of the URL, or of the reason why there is none.
/// The contract names that result, and says nothing more of what a URL is.
#[verifier::external_body]
fn parse_url(text: &str) -> (parsed: Result<String, String>)
    ensures
        match parsed {
            Ok(url) => parsed_url(text@) == Ok::<Seq<char>, Seq<char>>(url@),
            Err(reason) => parsed_url(text@) == Err::<Seq<char>, Seq<char>>(reason@),
        },
{
    match reqwest::Url::parse(text) {
        Ok(url) => Ok(url.to_string()),
        Err(e) => Err(e.to_string()),
    }
}

/// The response that stands for all pages of a feed together: fetched from `base_url`, from
/// before the first page to after the last, with the status of the last. There is one wherever
/// `base_url` is a URL.
pub fn paged_response(
    base_url: &str,
    events: &Vec<Value>,
    timestamp_before: Timestamp,
    timestamp_after: Timestamp,
    last_status_code: u16,
) -> (response: Result<ClientResponse, ResponseError>)
    ensures
        match response {
            Ok(r) => {
                &&& r.data@ == feed_document_bytes(event_bytes(events@))
                &&& r.data@ == encode_utf8("{\"feed\":["@) + comma_separated(
                    Seq::new(events@.len(), |i: int| json_bytes(events@[i])),
                ) + encode_utf8("]}"@)
                &&& parsed_url(base_url@) == Ok::<Seq<char>, Seq<char>>(r._url@)
                &&& r.timestamp_before == timestamp_before
                &&& r.timestamp_after == timestamp_after
                &&& r._status_code == last_status_code
                &&& !r._was_cached
            },
            Err(ResponseError::Url(reason)) => parsed_url(base_url@) == Err::<
                Seq<char>,
                Seq<char>,
            >(reason@),
            Err(ResponseError::Json(_)) => false,
        },
{
    match feed_document(events) {
        Ok(data) => match parse_url(base_url) {
            Ok(url) => Ok(
                ClientResponse::fetched(
                    url,
                    timestamp_before,
                    timestamp_after,
                    data,
                    last_status_code,
                ),
            ),
            Err(e) => Err(ResponseError::Url(e)),
        },
        Err(e) => Err(e),
    }
}

/// What pages that arrive one after the other lead to. Pages after the feed is complete are never
/// asked for.
pub open spec fn accept_pages(pager: FeedPagerView, pages: Seq<FeedHolderView>) -> PageOutcomeView
    decreases pages.len(),
{
    if pages.len() == 0 {
        PageOutcomeView::NextPage(pager)
    } else {
        match accept_page(pager, pages[0]) {
            PageOutcomeView::NextPage(next) => accept_pages(next, pages.drop_first()),
            PageOutcomeView::Complete(events) => PageOutcomeView::Complete(events),
        }
    }
}

/// The events of all pages, in the order in which they arrived.
pub open spec fn all_events(pages: Seq<FeedHolderView>) -> Seq<Value>
    decreases pages.len(),
{
    if pages.len() == 0 {
        Seq::empty()
    } else {
        pages[0].feed + all_events(pages.drop_first())
    }
}

/// Whether each page names the next one.
pub open spec fn all_continue(pages: Seq<FeedHolderView>) -> bool {
    forall|i: int|
        0 <= i < pages.len() ==> (#[trigger] pages[i]).next_cursor matches Some(Some(_))
}

/// While each page names the next, no event is lost and the URL to fetch carries the cursor of
/// the page that came last.
pub proof fn law_pages_accumulate(pager: FeedPagerView, pages: Seq<FeedHolderView>)
    requires
        all_continue(pages),
    ensures
        accept_pages(pager, pages) == PageOutcomeView::NextPage(
            FeedPagerView {
                base_url: pager.base_url,
                cursor: if pages.len() == 0 {
                    pager.cursor
                } else {
                    pages.last().next_cursor.unwrap()
                },
                fetched: pager.fetched + all_events(pages),
            },
        ),
    decreases pages.len(),
{
    if pages.len() == 0 {
        assert(pager.fetched + all_events(pages) =~= pager.fetched);
    } else {
        let first = pages[0];
        let next = FeedPagerView {
            base_url: pager.base_url,
            cursor: first.next_cursor.unwrap(),
            fetched: pager.fetched + first.feed,
        };
        assert(accept_page(pager, first) == PageOutcomeView::NextPage(next));
        law_pages_accumulate(next, pages.drop_first());
        assert(next.fetched + all_events(pages.drop_first()) =~= pager.fetched + all_events(pages));
    }
}

/// Pages that follow one another, and then whatever `last` leads to.
proof fn lemma_last_page_decides(
    pager: FeedPagerView,
    pages: Seq<FeedHolderView>,
    last: FeedHolderView,
)
    requires
        all_continue(pages),
        !(last.next_cursor matches Some(Some(_))),
    ensures
        accept_pages(pager, pages.push(last)) == accept_page(
            accept_pages(pager, pages)->NextPage_0,
            last,
        ),
    decreases pages.len(),
{
    let all = pages.push(last);
    if pages.len() == 0 {
        assert(all[0] == last);
    } else {
        assert(all[0] == pages[0]);
        assert(all.drop_first() == pages.drop_first().push(last));
        lemma_last_page_decides(
            accept_page(pager, pages[0])->NextPage_0,
            pages.drop_first(),
            last,
        );
    }
}

/// A feed whose pages name one another up to one with a null cursor is complete with that page:
/// its events are those of all pages, each once, in the opposite of the order in which they came.
pub proof fn law_paged_feed_is_reversed(
    base_url: Seq<char>,
    pages: Seq<FeedHolderView>,
    last: FeedHolderView,
)
    requires
        all_continue(pages),
        last.next_cursor == Some(None::<Seq<char>>),
    ensures
        accept_pages(first_page(base_url), pages.push(last)) == PageOutcomeView::Complete(
            (all_events(pages) + last.feed).reverse(),
        ),
{
    let start = first_page(base_url);
    lemma_last_page_decides(start, pages, last);
    law_pages_accumulate(start, pages);
    assert(start.fetched + all_events(pages) =~= all_events(pages));
}

/// A page without the cursor field is the whole feed, as it stands, whatever pages came before.
pub proof fn law_page_without_cursor_is_whole_feed(
    base_url: Seq<char>,
    pages: Seq<FeedHolderView>,
    last: FeedHolderView,
)
    requires
        all_continue(pages),
        last.next_cursor is None,
    ensures
        accept_pages(first_page(base_url), pages.push(last)) == PageOutcomeView::Complete(
            last.feed,
        ),
{
    lemma_last_page_decides(first_page(base_url), pages, last);
    law_pages_accumulate(first_page(base_url), pages);
}

/// Every item is in the join, whole and in its place, with one comma between two neighbours: lists
/// that hold something are joined, one after the other, with a comma between the two; one item is
/// its own join; and nothing joins to nothing.
pub proof fn law_join_puts_one_comma_between_neighbours(
    first: Seq<Seq<u8>>,
    second: Seq<Seq<u8>>,
    item: Seq<u8>,
)
    ensures
        first.len() > 0 && second.len() > 0 ==> comma_separated(first + second) == comma_separated(
            first,
        ) + seq![44u8] + comma_separated(second),
        comma_separated(seq![item]) == item,
        comma_separated(Seq::empty()).len() == 0,
    decreases second.len(),
{
    lemma_comma();
    if first.len() > 0 && second.len() > 0 {
        let all = first + second;
        let earlier = second.drop_last();
        assert(all.drop_last() =~= first + earlier);
        assert(all.last() == second.last());
        if earlier.len() == 0 {
            assert(all.drop_last() =~= first);
            assert(second =~= seq![second.last()]);
            assert(comma_separated(second) == second.last());
        } else {
            law_join_puts_one_comma_between_neighbours(first, earlier, item);
        }
        assert(comma_separated(all) =~= comma_separated(first) + seq![44u8] + comma_separated(
            second,
        ));
    }
}

proof fn lemma_comma()
    ensures
        encode_utf8(","@) == seq![44u8],
{
    reveal_strlit(",");
    is_ascii_chars_encode_utf8(","@);
    assert(","@[0] as u8 == 44u8);
    assert(encode_utf8(","@) =~= seq![44u8]);
}

/// A document is the join of its items between its two fixed ends, and so as long as these and all
/// items together, with a comma less than there are items.
pub proof fn law_document_holds_the_join(items: Seq<Seq<u8>>, more: Seq<u8>)
    ensures
        feed_document_bytes(items) == encode_utf8("{\"feed\":["@) + comma_separated(items)
            + encode_utf8("]}"@),
        items.len() > 0 ==> feed_document_bytes(items.push(more)).len() == feed_document_bytes(
            items,
        ).len() + 1 + more.len(),
{
    if items.len() > 0 {
        law_join_puts_one_comma_between_neighbours(items, seq![more], more);
        assert(items + seq![more] =~= items.push(more));
    }
}

/// The bytes of each event are those that it is written as.
pub proof fn law_each_event_is_written(events: Seq<Value>)
    ensures
        event_bytes(events).len() == events.len(),
        forall|i: int|
            0 <= i < events.len() ==> #[trigger] event_bytes(events)[i] == json_bytes(events[i]),
{
}

/// The URL of a page asks for a hundred events of the feed, from the cursor on where there is one.
pub proof fn law_page_url_carries_the_cursor(base_url: Seq<char>, cursor: Seq<char>)
    ensures
        page_url_text(base_url, None) == base_url + "&limit=100"@,
        page_url_text(base_url, Some(cursor)) == base_url + "&limit=100&cursor="@ + cursor,
        page_url_text(base_url, Some(cursor)) == page_url_text(base_url, None) + "&cursor="@
            + cursor,
{
    reveal_strlit("&limit=100");
    reveal_strlit("&cursor=");
    reveal_strlit("&limit=100&cursor=");
    assert("&limit=100&cursor="@ =~= "&limit=100"@ + "&cursor="@);
    assert(page_url_text(base_url, Some(cursor)) =~= page_url_text(base_url, None) + "&cursor="@
        + cursor);
}

/// What one page leads to, by its cursor: another page, with everything fetched so far and this
/// page after it; or the end, with all of that turned around; or, without the field, the page as
/// the whole feed.
pub proof fn law_cursor_decides_what_a_page_leads_to(pager: FeedPagerView, page: FeedHolderView)
    ensures
        page.next_cursor is None ==> accept_page(pager, page) == PageOutcomeView::Complete(
            page.feed,
        ),
        page.next_cursor matches Some(Some(cursor)) ==> (accept_page(pager, page) matches
            PageOutcomeView::NextPage(next) && next.base_url == pager.base_url && next.cursor
            == Some(cursor) && next.fetched == pager.fetched + page.feed),
        page.next_cursor matches Some(None) ==> (accept_page(pager, page) matches
            PageOutcomeView::Complete(events) && events.reverse() == pager.fetched + page.feed),
{
    if page.next_cursor matches Some(None) {
        assert((pager.fetched + page.feed).reverse().reverse() =~= pager.fetched + page.feed);
    }
}

/// The events of pages are those of each page, page after page.
pub proof fn law_events_come_page_after_page(
    first: Seq<FeedHolderView>,
    second: Seq<FeedHolderView>,
    page: FeedHolderView,
)
    ensures
        all_events(first + second) == all_events(first) + all_events(second),
        all_events(seq![page]) == page.feed,
    decreases first.len(),
{
    reveal_with_fuel(all_events, 2);
    assert(seq![page].drop_first() =~= Seq::empty());
    assert(page.feed + Seq::<Value>::empty() =~= page.feed);
    if first.len() == 0 {
        assert(first + second =~= second);
        assert(all_events(first) + all_events(second) =~= all_events(second));
    } else {
        law_events_come_page_after_page(first.drop_first(), second, page);
        assert((first + second).drop_first() =~= first.drop_first() + second);
        assert(all_events(first + second) =~= all_events(first) + all_events(second));
    }
}

/// A page is seen with all of its events and with its cursor as it stands.
pub proof fn law_page_is_seen_whole(page: FeedHolder)
    ensures
        page@.feed == page.feed@,
        page@.next_cursor is Some <==> page.next_cursor is Some,
        page.next_cursor matches Some(Some(cursor)) ==> page@.next_cursor == Some(Some(cursor@)),
        page.next_cursor matches Some(None) ==> page@.next_cursor == Some(None::<Seq<char>>),
{
}

} // verus!
