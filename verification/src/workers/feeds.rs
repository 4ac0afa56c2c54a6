//! The feeds of players and teams, and the names that players had.
use crate::entity::{EntityKind, FetchRequest};
use crate::text::{contains, joined, occurs_in, texts};
use crate::timestamp::Timestamp;
use vstd::prelude::*;

verus! {

/// Collects the names that players had, out of all feeds.
pub struct ProcessFeeds;

/// Fetches the feed of each player.
pub struct PollPlayerFeeds;

/// Fetches the feed of each team.
pub struct PollTeamFeeds;

/// How many names are stored at once.
pub const NAME_BATCH_LEN: usize = 1000;

/// How many feeds are fetched at once.
pub const FEED_CONCURRENCY: usize = 10;

/// The name of a player at a point in time.
#[derive(Debug, PartialEq, Eq)]
pub struct PlayerNameMapEntry {
    pub timestamp: Timestamp,
    pub player_id: String,
    pub player_name: String,
}

/// The contents of a `PlayerNameMapEntry`.
pub struct NameView {
    pub timestamp: Timestamp,
    pub player_id: Seq<char>,
    pub player_name: Seq<char>,
}

impl View for PlayerNameMapEntry {
    type V = NameView;

    open spec fn view(&self) -> NameView {
        NameView {
            timestamp: self.timestamp,
            player_id: self.player_id@,
            player_name: self.player_name@,
        }
    }
}

/// The feed of a player or of a team.
#[derive(Debug)]
pub struct FeedHolder {
    pub feed: Vec<FeedEntry>,
}

/// One entry of a feed.
#[derive(Debug)]
pub struct FeedEntry {
    pub ts: Timestamp,
    pub text: String,
    pub links: Vec<FeedLink>,
}

/// Something that an entry's text links to.
#[derive(Debug)]
pub struct FeedLink {
    pub kind: Option<String>,
    pub id: Option<String>,
    pub string: Option<String>,
}

impl FeedLink {
    /// Whether the link leads to a player.
    pub open spec fn leads_to_player(self) -> bool {
        self.kind matches Some(kind) && kind@ == "player"@
    }

    /// Whether the link leads to a player.
    fn is_player(&self) -> (player: bool)
        ensures
            player == self.leads_to_player(),
    {
        match &self.kind {
            Some(kind) => *kind.as_str() == *"player",
            None => false,
        }
    }
}

/// The first link that leads to a player.
pub open spec fn first_player(links: Seq<FeedLink>) -> Option<FeedLink>
    decreases links.len(),
{
    if links.len() == 0 {
        None
    } else if links[0].leads_to_player() {
        Some(links[0])
    } else {
        first_player(links.drop_first())
    }
}

impl FeedEntry {
    /// Whether the entry tells of one player who became another.
    pub open spec fn is_recomposition(self) -> bool {
        occurs_in(self.text@, " was Recomposed into "@)
    }

    /// The id of the player whom a link of the entry names. A recomposed player keeps the id of the
    /// player named first.
    pub open spec fn player_id(self, link: FeedLink) -> Option<String> {
        if self.is_recomposition() {
            match first_player(self.links@) {
                Some(first) => first.id,
                None => None,
            }
        } else {
            link.id
        }
    }

    /// The name that a link of the entry gives: where it leads to a player, whose id is known, and
    /// the name is there.
    pub open spec fn link_name(self, link: FeedLink) -> Option<NameView> {
        if link.leads_to_player() {
            match (self.player_id(link), link.string) {
                (Some(id), Some(name)) => Some(
                    NameView { timestamp: self.ts, player_id: id@, player_name: name@ },
                ),
                _ => None,
            }
        } else {
            None
        }
    }

    /// The names that the first `n` links of the entry give.
    pub open spec fn link_names(self, n: nat) -> Seq<NameView>
        decreases n,
    {
        if n == 0 {
            Seq::empty()
        } else {
            let earlier = self.link_names((n - 1) as nat);
            match self.link_name(self.links@[n - 1]) {
                Some(name) => earlier.push(name),
                None => earlier,
            }
        }
    }

    /// The names that the entry gives, in the order of its links.
    pub open spec fn names(self) -> Seq<NameView> {
        self.link_names(self.links@.len())
    }

    /// The id of the first player whom the entry links to.
    fn first_player_id(&self) -> (id: Option<&String>)
        ensures
            match id {
                Some(text) => first_player(self.links@) matches Some(first) && first.id == Some(
                    *text,
                ),
                None => first_player(self.links@) matches Some(first) ==> first.id is None,
            },
    {
        assert(self.links@.skip(0) == self.links@);
        let mut i: usize = 0;
        while i < self.links.len()
            invariant
                i <= self.links.len(),
                first_player(self.links@) == first_player(self.links@.skip(i as int)),
            decreases self.links.len() - i,
        {
            assert(self.links@.skip(i as int).drop_first() == self.links@.skip(i + 1));
            if self.links[i].is_player() {
                return self.links[i].id.as_ref();
            }
            i = i + 1;
        }
        None
    }
}

/// The names that the entries of a feed give, in their order.
pub open spec fn feed_names(feed: Seq<FeedEntry>) -> Seq<NameView>
    decreases feed.len(),
{
    if feed.len() == 0 {
        Seq::empty()
    } else {
        feed_names(feed.drop_last()) + feed.last().names()
    }
}

/// The contents of a list of names.
pub open spec fn names_view(names: Seq<PlayerNameMapEntry>) -> Seq<NameView> {
    names.map_values(|name: PlayerNameMapEntry| name@)
}

/// Adds the names that a feed gives to `output`.
pub fn handle_feed(output: &mut Vec<PlayerNameMapEntry>, feed: &[FeedEntry])
    ensures
        names_view(final(output)@) == names_view(old(output)@) + feed_names(feed@),
        final(output)@.len() == old(output)@.len() + feed_names(feed@).len(),
        final(output)@.take(old(output)@.len() as int) == old(output)@,
        forall|k: int|
            0 <= k < feed_names(feed@).len() ==> {
                let name = #[trigger] feed_names(feed@)[k];
                let added = final(output)@[old(output)@.len() + k];
                &&& added.timestamp == name.timestamp
                &&& added.player_id@ == name.player_id
                &&& added.player_name@ == name.player_name
            },
{
    let ghost before = names_view(output@);
    assert(output@.take(output@.len() as int) =~= output@);
    assert(names_view(output@) =~= before + feed_names(feed@.take(0)));
    for i in 0..feed.len()
        invariant
            names_view(output@) == before + feed_names(feed@.take(i as int)),
            before.len() == old(output)@.len() <= output@.len(),
            output@.take(old(output)@.len() as int) == old(output)@,
    {
        let entry = &feed[i];
        let recomposed = contains(entry.text.as_str(), " was Recomposed into ");
        let ghost so_far = names_view(output@);
        assert(names_view(output@) =~= so_far + entry.link_names(0));
        for j in 0..entry.links.len()
            invariant
                recomposed == entry.is_recomposition(),
                names_view(output@) == so_far + entry.link_names(j as nat),
                old(output)@.len() <= output@.len(),
                output@.take(old(output)@.len() as int) == old(output)@,
        {
            let link = &entry.links[j];
            let ghost earlier = names_view(output@);
            let ghost held = output@;
            if link.is_player() {
                let player_id = if recomposed {
                    entry.first_player_id()
                } else {
                    link.id.as_ref()
                };
                if let (Some(player_id), Some(player_name)) = (player_id, link.string.as_ref()) {
                    output.push(
                        PlayerNameMapEntry {
                            timestamp: entry.ts,
                            player_id: player_id.clone(),
                            player_name: player_name.clone(),
                        },
                    );
                    proof {
                        let name = entry.link_name(*link)->0;
                        assert(names_view(output@) =~= earlier.push(name));
                        assert(output@.take(old(output)@.len() as int) =~= held.take(
                            old(output)@.len() as int,
                        ));
                    }
                }
            }
            assert(names_view(output@) =~= so_far + entry.link_names((j + 1) as nat));
        }
        proof {
            let next = feed@.take(i + 1);
            assert(next.drop_last() == feed@.take(i as int));
            assert(names_view(output@) =~= before + feed_names(next));
        }
    }
    assert(feed@.take(feed@.len() as int) == feed@);
    proof {
        assert(names_view(output@).len() == output@.len());
        assert forall|k: int| 0 <= k < feed_names(feed@).len() implies {
            let name = #[trigger] feed_names(feed@)[k];
            let added = output@[old(output)@.len() + k];
            &&& added.timestamp == name.timestamp
            &&& added.player_id@ == name.player_id
            &&& added.player_name@ == name.player_name
        } by {
            assert(names_view(output@)[old(output)@.len() + k] == feed_names(feed@)[k]);
        }
    }
}

/// A feed in two parts gives the names of the first part and then those of the second: it does not
/// matter in how many pieces the feeds are handed over.
pub proof fn law_feeds_add_up(first: Seq<FeedEntry>, second: Seq<FeedEntry>)
    ensures
        feed_names(first + second) == feed_names(first) + feed_names(second),
    decreases second.len(),
{
    if second.len() == 0 {
        assert(first + second =~= first);
        assert(feed_names(first) + feed_names(second) =~= feed_names(first));
    } else {
        assert((first + second).drop_last() =~= first + second.drop_last());
        law_feeds_add_up(first, second.drop_last());
        assert(feed_names(first + second) =~= feed_names(first) + feed_names(second));
    }
}

/// Every name that an entry gives is of the time of the entry, and where the entry tells of a
/// recomposition, all its names belong to the player who is linked to first.
pub proof fn law_entry_names(entry: FeedEntry, n: nat, at: int)
    requires
        n <= entry.links@.len(),
        0 <= at < entry.link_names(n).len(),
    ensures
        entry.link_names(n)[at].timestamp == entry.ts,
        entry.is_recomposition() ==> {
            &&& first_player(entry.links@) matches Some(first)
            &&& first.id matches Some(id)
            &&& entry.link_names(n)[at].player_id == id@
        },
    decreases n,
{
    let earlier = entry.link_names((n - 1) as nat);
    if at < earlier.len() {
        law_entry_names(entry, (n - 1) as nat, at);
    }
}

/// Names to be stored together, in columns.
#[derive(Debug)]
pub struct NameBatch {
    pub ids: Vec<String>,
    pub names: Vec<String>,
    pub timestamps: Vec<Timestamp>,
}

impl NameBatch {
    /// Whether the columns hold these names, row by row.
    pub open spec fn holds(self, names: Seq<NameView>) -> bool {
        &&& texts(self.ids@) =~= names.map_values(|name: NameView| name.player_id)
        &&& texts(self.names@) =~= names.map_values(|name: NameView| name.player_name)
        &&& self.timestamps@ =~= names.map_values(|name: NameView| name.timestamp)
    }
}

/// The names from place `start` on, as many as are stored at once.
pub open spec fn name_chunk(names: Seq<NameView>, start: int) -> Seq<NameView> {
    if start + NAME_BATCH_LEN <= names.len() {
        names.subrange(start, start + NAME_BATCH_LEN)
    } else {
        names.skip(start)
    }
}

/// How many batches it takes to store `n` names.
pub open spec fn batch_count(n: nat) -> nat {
    (n + NAME_BATCH_LEN as nat - 1) as nat / (NAME_BATCH_LEN as nat)
}

/// The names of the first `n` batches, one after the other.
pub open spec fn chunks_joined(names: Seq<NameView>, n: nat) -> Seq<NameView>
    decreases n,
{
    if n == 0 {
        Seq::empty()
    } else {
        chunks_joined(names, (n - 1) as nat) + name_chunk(names, (n - 1) * NAME_BATCH_LEN)
    }
}

impl ProcessFeeds {
    /// How often, in seconds, the feeds are processed.
    pub fn interval() -> (seconds: u64)
        ensures
            seconds == 5 * 60,
    {
        5 * 60
    }

    /// The names in batches that are stored one after the other, each full but for the last.
    pub fn batches(entries: &Vec<PlayerNameMapEntry>) -> (batches: Vec<NameBatch>)
        ensures
            batches@.len() == batch_count(entries@.len()),
            forall|b: int|
                0 <= b < batches@.len() ==> (#[trigger] batches@[b]).holds(
                    name_chunk(names_view(entries@), b * NAME_BATCH_LEN),
                ),
            batches@.len() == (entries@.len() + 999) / 1000,
            forall|b: int|
                0 <= b < batches@.len() ==> {
                    let rows = if (b + 1) * 1000 <= entries@.len() {
                        1000
                    } else {
                        entries@.len() - b * 1000
                    };
                    &&& (#[trigger] batches@[b]).ids@.len() == rows
                    &&& batches@[b].names@.len() == rows
                    &&& batches@[b].timestamps@.len() == rows
                },
            forall|k: int|
                0 <= k < entries@.len() ==> {
                    let entry = #[trigger] entries@[k];
                    let batch = batches@[k / 1000];
                    &&& batch.ids@[k % 1000]@ == entry.player_id@
                    &&& batch.names@[k % 1000]@ == entry.player_name@
                    &&& batch.timestamps@[k % 1000] == entry.timestamp
                },
    {
        let ghost all = names_view(entries@);
        let mut batches: Vec<NameBatch> = Vec::new();
        let mut start: usize = 0;
        while start < entries.len()
            invariant
                all == names_view(entries@),
                start == batches@.len() * NAME_BATCH_LEN || start == entries@.len(),
                start <= entries@.len(),
                batches@.len() == batch_count(start as nat),
                forall|b: int|
                    0 <= b < batches@.len() ==> (#[trigger] batches@[b]).holds(
                        name_chunk(all, b * NAME_BATCH_LEN),
                    ),
            decreases entries.len() - start,
        {
            let end: usize = if entries.len() - start > NAME_BATCH_LEN {
                start + NAME_BATCH_LEN
            } else {
                entries.len()
            };
            let mut batch = NameBatch { ids: Vec::new(), names: Vec::new(), timestamps: Vec::new() };
            assert(batch.holds(all.subrange(start as int, start as int)));
            let mut i: usize = start;
            while i < end
                invariant
                    all == names_view(entries@),
                    start <= i <= end <= entries@.len(),
                    batch.holds(all.subrange(start as int, i as int)),
                decreases end - i,
            {
                let ghost rows = all.subrange(start as int, i as int);
                let ghost earlier = batch;
                batch.ids.push(entries[i].player_id.clone());
                batch.names.push(entries[i].player_name.clone());
                batch.timestamps.push(entries[i].timestamp);
                assert(all.subrange(start as int, i + 1) =~= rows.push(entries@[i as int]@));
                assert(texts(batch.ids@) =~= texts(earlier.ids@).push(all[i as int].player_id));
                assert(texts(batch.names@) =~= texts(earlier.names@).push(all[i as int].player_name));
                assert(batch.holds(rows.push(entries@[i as int]@)));
                i = i + 1;
            }
            assert(all.subrange(start as int, end as int) =~= name_chunk(all, start as int));
            batches.push(batch);
            start = end;
        }
        proof {
            assert forall|b: int| 0 <= b < batches@.len() implies {
                let rows = if (b + 1) * 1000 <= entries@.len() {
                    1000
                } else {
                    entries@.len() - b * 1000
                };
                &&& (#[trigger] batches@[b]).ids@.len() == rows
                &&& batches@[b].names@.len() == rows
                &&& batches@[b].timestamps@.len() == rows
            } by {
                let chunk = name_chunk(all, b * 1000);
                assert(batches@[b].holds(chunk));
                assert(texts(batches@[b].ids@).len() == chunk.len());
                assert(texts(batches@[b].names@).len() == chunk.len());
            }
            assert forall|k: int| 0 <= k < entries@.len() implies {
                let entry = #[trigger] entries@[k];
                let batch = batches@[k / 1000];
                &&& batch.ids@[k % 1000]@ == entry.player_id@
                &&& batch.names@[k % 1000]@ == entry.player_name@
                &&& batch.timestamps@[k % 1000] == entry.timestamp
            } by {
                let b = k / 1000;
                let chunk = name_chunk(all, b * 1000);
                assert(batches@[b].holds(chunk));
                assert(chunk[k % 1000] == all[k]);
                assert(texts(batches@[b].ids@)[k % 1000] == all[k].player_id);
                assert(texts(batches@[b].names@)[k % 1000] == all[k].player_name);
            }
        }
        batches
    }
}

/// The batches together hold every name, each once and in its place: nothing is lost between two
/// of them.
pub proof fn law_batches_hold_everything(names: Seq<NameView>)
    ensures
        chunks_joined(names, batch_count(names.len())) == names,
{
    lemma_chunks_joined(names, batch_count(names.len()));
    assert(names.take(names.len() as int) =~= names);
}

proof fn lemma_chunks_joined(names: Seq<NameView>, n: nat)
    requires
        n <= batch_count(names.len()),
    ensures
        chunks_joined(names, n) == if n * NAME_BATCH_LEN <= names.len() {
            names.take(n * NAME_BATCH_LEN)
        } else {
            names
        },
    decreases n,
{
    if n > 0 {
        lemma_chunks_joined(names, (n - 1) as nat);
        assert(chunks_joined(names, n) =~= if n * NAME_BATCH_LEN <= names.len() {
            names.take(n * NAME_BATCH_LEN)
        } else {
            names
        });
    } else {
        assert(names.take(0) =~= Seq::empty());
    }
}

impl PollPlayerFeeds {
    /// How often, in seconds, the feeds of all players are fetched.
    pub fn interval() -> (seconds: u64)
        ensures
            seconds == 5 * 60 * 60,
    {
        5 * 60 * 60
    }
}

impl PollTeamFeeds {
    /// How often, in seconds, the feeds of all teams are fetched.
    pub fn interval() -> (seconds: u64)
        ensures
            seconds == 60 * 60,
    {
        60 * 60
    }
}

/// The feed of a player, to be fetched page by page.
pub fn player_feed_request(player_id: &str) -> (request: FetchRequest)
    ensures
        request.asks_for(
            "https://mmolb.com/api/feed?player="@ + player_id@,
            EntityKind::PlayerFeed,
            player_id@,
        ),
{
    FetchRequest {
        url: joined("https://mmolb.com/api/feed?player=", player_id),
        kind: EntityKind::PlayerFeed,
        entity_id: player_id.to_owned(),
    }
}

/// The feed of a team, to be fetched page by page.
pub fn team_feed_request(team_id: &str) -> (request: FetchRequest)
    ensures
        request.asks_for(
            "https://mmolb.com/api/feed?team="@ + team_id@,
            EntityKind::TeamFeed,
            team_id@,
        ),
{
    FetchRequest {
        url: joined("https://mmolb.com/api/feed?team=", team_id),
        kind: EntityKind::TeamFeed,
        entity_id: team_id.to_owned(),
    }
}

/// A link leads to a player exactly where it says that it is of the kind `player`.
pub proof fn law_player_links_say_so(link: FeedLink)
    ensures
        link.leads_to_player() <==> link.kind is Some && link.kind->0@ == "player"@,
{
}

/// The first player of a list of links is the link of a player before which none is.
pub proof fn law_first_player_comes_before_the_others(links: Seq<FeedLink>, first: int)
    requires
        0 <= first < links.len(),
        links[first].kind is Some && links[first].kind->0@ == "player"@,
        forall|i: int|
            0 <= i < first ==> !((#[trigger] links[i]).kind is Some && links[i].kind->0@
                == "player"@),
    ensures
        first_player(links) == Some(links[first]),
    decreases links.len(),
{
    if first > 0 {
        let rest = links.drop_first();
        assert(links[0].kind is Some ==> links[0].kind->0@ != "player"@);
        assert forall|i: int| 0 <= i < first - 1 implies !((#[trigger] rest[i]).kind is Some
            && rest[i].kind->0@ == "player"@) by {
            assert(rest[i] == links[i + 1]);
        }
        law_first_player_comes_before_the_others(rest, first - 1);
    }
}

/// Where no link leads to a player, there is no first player.
pub proof fn law_no_first_player_without_players(links: Seq<FeedLink>)
    requires
        forall|i: int|
            0 <= i < links.len() ==> !((#[trigger] links[i]).kind is Some && links[i].kind->0@
                == "player"@),
    ensures
        first_player(links) is None,
    decreases links.len(),
{
    if links.len() > 0 {
        let rest = links.drop_first();
        assert(links[0].kind is Some ==> links[0].kind->0@ != "player"@);
        assert forall|i: int| 0 <= i < rest.len() implies !((#[trigger] rest[i]).kind is Some
            && rest[i].kind->0@ == "player"@) by {
            assert(rest[i] == links[i + 1]);
        }
        law_no_first_player_without_players(rest);
    }
}

/// Link by link: the link of a player whose id is known and whose name is there adds one name, the
/// whole of what it matched, at the time of the entry; any other link adds none. The id is the
/// link's own, or, where the entry tells of a recomposition, that of the player linked to first.
pub proof fn law_links_give_names_in_order(entry: FeedEntry, n: nat, first: int)
    requires
        n < entry.links@.len(),
        0 <= first <= n,
        entry.links@[n as int].kind is Some && entry.links@[n as int].kind->0@ == "player"@ ==> {
            &&& entry.links@[first].kind is Some
            &&& entry.links@[first].kind->0@ == "player"@
            &&& forall|i: int|
                0 <= i < first ==> !((#[trigger] entry.links@[i]).kind is Some
                    && entry.links@[i].kind->0@ == "player"@)
        },
    ensures
        entry.link_names(0).len() == 0,
        entry.names() == entry.link_names(entry.links@.len()),
        ({
            let link = entry.links@[n as int];
            let id = if occurs_in(entry.text@, " was Recomposed into "@) {
                entry.links@[first].id
            } else {
                link.id
            };
            if link.kind is Some && link.kind->0@ == "player"@ && id is Some && link.string is Some {
                entry.link_names((n + 1) as nat) == entry.link_names(n).push(
                    NameView {
                        timestamp: entry.ts,
                        player_id: id->0@,
                        player_name: link.string->0@,
                    },
                )
            } else {
                entry.link_names((n + 1) as nat) == entry.link_names(n)
            }
        }),
{
    let link = entry.links@[n as int];
    if link.kind is Some && link.kind->0@ == "player"@ {
        law_first_player_comes_before_the_others(entry.links@, first);
    }
}

/// A feed of one entry gives the names of that entry, and one of none gives none.
pub proof fn law_feed_of_one_entry(entry: FeedEntry)
    ensures
        feed_names(seq![entry]) == entry.names(),
        feed_names(Seq::empty()).len() == 0,
{
    reveal_with_fuel(feed_names, 2);
    assert(seq![entry].drop_last() =~= Seq::empty());
    assert(Seq::<NameView>::empty() + entry.names() =~= entry.names());
}

/// Every name of an entry is the whole of what one of its links to a player matched, at the time of
/// the entry; outside of a recomposition it is of the player with the id of that same link.
pub proof fn law_each_name_is_that_of_a_link(entry: FeedEntry, n: nat, k: int)
    requires
        n <= entry.links@.len(),
        0 <= k < entry.link_names(n).len(),
    ensures
        exists|j: int|
            {
                let link = #[trigger] entry.links@[j];
                let name = entry.link_names(n)[k];
                &&& 0 <= j < n
                &&& link.kind is Some && link.kind->0@ == "player"@
                &&& link.string is Some && name.player_name == link.string->0@
                &&& name.timestamp == entry.ts
                &&& !occurs_in(entry.text@, " was Recomposed into "@) ==> link.id is Some
                    && name.player_id == link.id->0@
            },
    decreases n,
{
    let earlier = entry.link_names((n - 1) as nat);
    if k < earlier.len() {
        law_each_name_is_that_of_a_link(entry, (n - 1) as nat, k);
        let j = choose|j: int|
            {
                let link = #[trigger] entry.links@[j];
                let name = earlier[k];
                &&& 0 <= j < n - 1
                &&& link.kind is Some && link.kind->0@ == "player"@
                &&& link.string is Some && name.player_name == link.string->0@
                &&& name.timestamp == entry.ts
                &&& !occurs_in(entry.text@, " was Recomposed into "@) ==> link.id is Some
                    && name.player_id == link.id->0@
            };
        assert(entry.link_names(n)[k] == earlier[k]);
        assert(entry.links@[j].kind is Some);
    } else {
        assert(entry.links@[n - 1].kind is Some);
    }
}

/// Every link to a player that says what it matched gives a name, among those of the links up to it
/// and after it: that whole text, for the player of the link, or of the first link in a
/// recomposition, where the id is known.
pub proof fn law_each_player_link_gives_its_name(entry: FeedEntry, n: nat, j: int, first: int)
    requires
        0 <= j < n <= entry.links@.len(),
        entry.links@[j].kind is Some && entry.links@[j].kind->0@ == "player"@,
        entry.links@[j].string is Some,
        0 <= first <= j,
        entry.links@[first].kind is Some && entry.links@[first].kind->0@ == "player"@,
        forall|i: int|
            0 <= i < first ==> !((#[trigger] entry.links@[i]).kind is Some
                && entry.links@[i].kind->0@ == "player"@),
        occurs_in(entry.text@, " was Recomposed into "@) ==> entry.links@[first].id is Some,
        !occurs_in(entry.text@, " was Recomposed into "@) ==> entry.links@[j].id is Some,
    ensures
        entry.link_names(n).contains(
            NameView {
                timestamp: entry.ts,
                player_id: if occurs_in(entry.text@, " was Recomposed into "@) {
                    entry.links@[first].id->0@
                } else {
                    entry.links@[j].id->0@
                },
                player_name: entry.links@[j].string->0@,
            },
        ),
    decreases n,
{
    let names = entry.link_names(n);
    let wanted = NameView {
        timestamp: entry.ts,
        player_id: if occurs_in(entry.text@, " was Recomposed into "@) {
            entry.links@[first].id->0@
        } else {
            entry.links@[j].id->0@
        },
        player_name: entry.links@[j].string->0@,
    };
    if j == n - 1 {
        law_links_give_names_in_order(entry, j as nat, first);
        assert(names[names.len() - 1] == wanted);
    } else {
        law_each_player_link_gives_its_name(entry, (n - 1) as nat, j, first);
        let earlier = entry.link_names((n - 1) as nat);
        let k = choose|k: int| 0 <= k < earlier.len() && earlier[k] == wanted;
        assert(names[k] == wanted);
    }
}

/// A feed gives exactly the names of its entries: each is of some entry, and each of any entry is
/// given.
pub proof fn law_feed_gives_the_names_of_its_entries(feed: Seq<FeedEntry>, name: NameView)
    ensures
        feed_names(feed).contains(name) <==> exists|i: int|
            0 <= i < feed.len() && (#[trigger] feed[i]).link_names(
                feed[i].links@.len(),
            ).contains(name),
    decreases feed.len(),
{
    if feed.len() > 0 {
        let earlier = feed.drop_last();
        law_feed_gives_the_names_of_its_entries(earlier, name);
        let (a, b) = (feed_names(earlier), feed.last().names());
        let all = feed_names(feed);
        assert(forall|i: int| 0 <= i < earlier.len() ==> #[trigger] earlier[i] == feed[i]);
        if all.contains(name) {
            let k = choose|k: int| 0 <= k < all.len() && all[k] == name;
            if k < a.len() {
                assert(a[k] == name);
                let i = choose|i: int|
                    0 <= i < earlier.len() && (#[trigger] earlier[i]).link_names(
                        earlier[i].links@.len(),
                    ).contains(name);
                assert(feed[i].link_names(feed[i].links@.len()).contains(name));
            } else {
                assert(b[k - a.len()] == name);
                assert(feed[feed.len() - 1].link_names(feed.last().links@.len()).contains(name));
            }
        }
        if exists|i: int|
            0 <= i < feed.len() && (#[trigger] feed[i]).link_names(
                feed[i].links@.len(),
            ).contains(name) {
            let i = choose|i: int|
                0 <= i < feed.len() && (#[trigger] feed[i]).link_names(
                    feed[i].links@.len(),
                ).contains(name);
            if i < earlier.len() {
                assert(earlier[i].link_names(earlier[i].links@.len()).contains(name));
                let k = choose|k: int| 0 <= k < a.len() && a[k] == name;
                assert(all[k] == name);
            } else {
                let k = choose|k: int| 0 <= k < b.len() && b[k] == name;
                assert(all[a.len() + k] == name);
            }
        }
    }
}

/// A name is seen as it is stored, and a list of names one by one.
pub proof fn law_names_are_seen_whole(names: Seq<PlayerNameMapEntry>)
    ensures
        names_view(names).len() == names.len(),
        forall|i: int|
            0 <= i < names.len() ==> {
                let seen = #[trigger] names_view(names)[i];
                &&& seen.timestamp == names[i].timestamp
                &&& seen.player_id == names[i].player_id@
                &&& seen.player_name == names[i].player_name@
            },
{
}

/// Names are stored a thousand at a time: a batch is the thousand names from its start on, or as
/// many as are left, and there are as few batches as hold them all.
pub proof fn law_batches_are_of_a_thousand(names: Seq<NameView>, start: int)
    requires
        0 <= start <= names.len(),
    ensures
        name_chunk(names, start).len() == if start + 1000 <= names.len() {
            1000
        } else {
            names.len() - start
        },
        forall|i: int|
            0 <= i < name_chunk(names, start).len() ==> #[trigger] name_chunk(names, start)[i]
                == names[start + i],
        batch_count(names.len()) * 1000 >= names.len(),
        batch_count(names.len()) * 1000 < names.len() + 1000,
{
}

} // verus!
