//! Games: which days a season has, which games a day has, and which of them are fetched.
use crate::entity::{EntityKind, FetchRequest};
use crate::ids::{
    distinct, distinct_ids, ids_without, law_distinct_keeps_each_once, law_without_leaves_the_rest,
    law_every_line_gives_its_id, lines, listed_ids, trimmed_nonempty, without,
};
use crate::json::Json;
use crate::text::{
    decimal, i64_to_string, integer_value, joined, parse_i64, slice_text, starts_with,
    strip_prefix, texts, trimmed,
};
use vstd::hash_map::StringHashMap;
use vstd::prelude::*;

verus! {

/// Fetches the days of the current season, and the games of that season that are not over.
pub struct PollGameDays;

/// Fetches the games that belong to an event.
pub struct HandleEventGames;

/// Fetches the games of the superstars.
pub struct HandleSuperstarGames;

/// How many games of a season are fetched at once.
pub const SEASON_GAME_CONCURRENCY: usize = 25;

/// How many games of an event, or of the superstars, are fetched at once.
pub const EVENT_GAME_CONCURRENCY: usize = 3;

/// How many days of a season are fetched at once.
pub const DAY_CONCURRENCY: usize = 10;

/// How many games are fetched at once where all of them are.
pub const ALL_GAMES_CONCURRENCY: usize = 50;

/// How many seasons are fetched at once.
pub const SEASON_CONCURRENCY: usize = 1;

/// A game of the superstars, of which the id may not be known yet.
#[derive(Debug)]
pub struct SuperstarGame {
    pub game_id: Option<String>,
}

/// A game of a day, of which the id may not be known yet.
#[derive(Debug)]
pub struct DayGame {
    pub game_id: Option<String>,
}

/// A day as it is stored: its games, where what is stored could be read.
#[derive(Debug)]
pub struct StoredDay {
    pub entity_id: String,
    pub games: Option<Vec<DayGame>>,
}

/// A game as the source reports it.
#[derive(Debug)]
pub struct MmolbGame<E> {
    pub season: i64,
    /// The number of the day, where it has one.
    pub day: Option<i64>,
    /// The name of the day, where it has one instead.
    pub day_special: Option<String>,
    pub home_team_id: String,
    pub away_team_id: String,
    pub state: String,
    pub event_log: Vec<E>,
}

/// What is stored of a game beside its observation.
#[derive(Debug)]
pub struct DbGameSaveModel<'a, E> {
    pub game_id: &'a str,
    pub season: i64,
    pub day: Option<i64>,
    pub day_special: Option<&'a str>,
    pub home_team_id: &'a str,
    pub away_team_id: &'a str,
    pub state: &'a str,
    pub event_count: i32,
    pub last_update: Option<&'a E>,
}

/// To which season each day belongs.
pub struct DaySeasons {
    seasons: StringHashMap<String>,
}

impl View for DaySeasons {
    type V = Map<Seq<char>, Seq<char>>;

    closed spec fn view(&self) -> Map<Seq<char>, Seq<char>> {
        self.seasons@.map_values(|season: String| season@)
    }
}

/// `seasons` with the first `n` of `days` belonging to `season`.
pub open spec fn with_days(
    seasons: Map<Seq<char>, Seq<char>>,
    season: Seq<char>,
    days: Seq<Seq<char>>,
    n: nat,
) -> Map<Seq<char>, Seq<char>>
    decreases n,
{
    if n == 0 {
        seasons
    } else {
        with_days(seasons, season, days, (n - 1) as nat).insert(days[n - 1], season)
    }
}

/// Whether a day belongs to the season asked for, or no season is asked for.
pub open spec fn is_included(
    seasons: Map<Seq<char>, Seq<char>>,
    day: Seq<char>,
    season_filter: Option<Seq<char>>,
) -> bool {
    match season_filter {
        Some(season) => seasons.contains_key(day) && seasons[day] == season,
        None => true,
    }
}

impl DaySeasons {
    /// No day belongs to any season.
    pub fn new() -> (seasons: DaySeasons)
        ensures
            seasons@ == Map::<Seq<char>, Seq<char>>::empty(),
    {
        let seasons = DaySeasons { seasons: StringHashMap::new() };
        assert(seasons@ =~= Map::empty());
        seasons
    }

    /// Notes the days of a season. A day that belonged to another season belongs to this one from
    /// now on.
    pub fn add_season(&mut self, season_id: &str, days: &Vec<String>)
        ensures
            final(self)@ == with_days(old(self)@, season_id@, texts(days@), days@.len()),
            forall|i: int|
                0 <= i < days@.len() ==> final(self)@.contains_key((#[trigger] days@[i])@)
                    && final(self)@[days@[i]@] == season_id@,
            forall|day: Seq<char>|
                !(#[trigger] texts(days@).contains(day)) ==> {
                    &&& final(self)@.contains_key(day) <==> old(self)@.contains_key(day)
                    &&& old(self)@.contains_key(day) ==> final(self)@[day] == old(self)@[day]
                },
    {
        for i in 0..days.len()
            invariant
                self@ == with_days(old(self)@, season_id@, texts(days@), i as nat),
        {
            let ghost before = self@;
            self.seasons.insert(days[i].clone(), season_id.to_owned());
            assert(self@ =~= before.insert(texts(days@)[i as int], season_id@));
        }
        proof {
            let all = texts(days@);
            assert(all.take(days@.len() as int) =~= all);
            assert forall|i: int| 0 <= i < days@.len() implies self@.contains_key(
                (#[trigger] days@[i])@,
            ) && self@[days@[i]@] == season_id@ by {
                assert(all[i] == days@[i]@);
                law_last_season_wins(old(self)@, season_id@, all, days@.len(), days@[i]@);
            }
            assert forall|day: Seq<char>| !(#[trigger] texts(days@).contains(day)) implies {
                &&& self@.contains_key(day) <==> old(self)@.contains_key(day)
                &&& old(self)@.contains_key(day) ==> self@[day] == old(self)@[day]
            } by {
                law_last_season_wins(old(self)@, season_id@, all, days@.len(), day);
            }
        }
    }

    /// Whether a day belongs to the season asked for, or no season is asked for.
    pub fn includes(&self, day_id: &str, season_filter: Option<&str>) -> (included: bool)
        ensures
            included == is_included(self@, day_id@, slice_text(season_filter)),
            season_filter is None ==> included,
            season_filter matches Some(season) ==> (included <==> self@.contains_key(day_id@)
                && self@[day_id@] == season@),
    {
        match season_filter {
            Some(wanted) => match self.seasons.get(day_id) {
                Some(season) => *season.as_str() == *wanted,
                None => false,
            },
            None => true,
        }
    }
}

/// The ids that are known, in their order.
pub open spec fn known_ids(ids: Seq<Option<String>>) -> Seq<Seq<char>>
    decreases ids.len(),
{
    if ids.len() == 0 {
        Seq::empty()
    } else {
        let earlier = known_ids(ids.drop_last());
        match ids.last() {
            Some(id) => earlier.push(id@),
            None => earlier,
        }
    }
}

/// The ids of the games of a day.
pub open spec fn day_game_ids(games: Seq<DayGame>) -> Seq<Seq<char>> {
    known_ids(games.map_values(|game: DayGame| game.game_id))
}

/// The ids of the games of those days that are included and could be read, day by day.
pub open spec fn game_ids_of_days(
    seasons: Map<Seq<char>, Seq<char>>,
    season_filter: Option<Seq<char>>,
    days: Seq<StoredDay>,
) -> Seq<Seq<char>>
    decreases days.len(),
{
    if days.len() == 0 {
        Seq::empty()
    } else {
        let earlier = game_ids_of_days(seasons, season_filter, days.drop_last());
        match days.last().games {
            Some(games) => if is_included(seasons, days.last().entity_id@, season_filter) {
                earlier + day_game_ids(games@)
            } else {
                earlier
            },
            None => earlier,
        }
    }
}

/// Adds the ids of the games of a day to `game_ids`.
pub fn add_day_games(game_ids: &mut Vec<String>, games: &Vec<DayGame>)
    ensures
        texts(final(game_ids)@) == texts(old(game_ids)@) + day_game_ids(games@),
        forall|id: Seq<char>| #[trigger]
            texts(final(game_ids)@).contains(id) <==> texts(old(game_ids)@).contains(id) || exists|
                g: int,
            |
                0 <= g < games@.len() && (#[trigger] games@[g]).game_id is Some
                    && games@[g].game_id->0@ == id,
{
    let ghost ids = games@.map_values(|game: DayGame| game.game_id);
    let ghost before = texts(game_ids@);
    assert(texts(game_ids@) =~= before + known_ids(ids.take(0)));
    for i in 0..games.len()
        invariant
            ids == games@.map_values(|game: DayGame| game.game_id),
            texts(game_ids@) == before + known_ids(ids.take(i as int)),
    {
        let ghost so_far = texts(game_ids@);
        assert(ids.take(i + 1).drop_last() == ids.take(i as int));
        if let Some(id) = &games[i].game_id {
            game_ids.push(id.clone());
            assert(texts(game_ids@) =~= so_far.push(id@));
        }
        assert(texts(game_ids@) =~= before + known_ids(ids.take(i + 1)));
    }
    assert(ids.take(games@.len() as int) == ids);
    proof {
        assert forall|id: Seq<char>| #[trigger]
            texts(game_ids@).contains(id) <==> before.contains(id) || exists|g: int|
                0 <= g < games@.len() && (#[trigger] games@[g]).game_id is Some
                    && games@[g].game_id->0@ == id by {
            lemma_contains_joined(before, day_game_ids(games@), id);
            law_day_has_the_games_that_are_known(games@, id);
        }
    }
}

/// The ids of the games of all stored days, or of those of one season.
pub fn get_all_game_ids_from_days(
    seasons: &DaySeasons,
    season_filter: Option<&str>,
    days: &Vec<StoredDay>,
) -> (game_ids: Vec<String>)
    ensures
        texts(game_ids@) == game_ids_of_days(seasons@, slice_text(season_filter), days@),
        forall|id: Seq<char>| #[trigger]
            texts(game_ids@).contains(id) <==> exists|d: int, g: int|
                {
                    &&& 0 <= d < days@.len()
                    &&& days@[d].games is Some
                    &&& 0 <= g < days@[d].games->0@.len()
                    &&& (#[trigger] days@[d].games->0@[g]).game_id is Some
                    &&& days@[d].games->0@[g].game_id->0@ == id
                    &&& season_filter is None || (seasons@.contains_key(days@[d].entity_id@)
                        && seasons@[days@[d].entity_id@] == season_filter->0@)
                },
{
    let mut game_ids: Vec<String> = Vec::new();
    assert(texts(game_ids@) =~= Seq::<Seq<char>>::empty());
    for i in 0..days.len()
        invariant
            texts(game_ids@) == game_ids_of_days(
                seasons@,
                slice_text(season_filter),
                days@.take(i as int),
            ),
    {
        assert(days@.take(i + 1).drop_last() == days@.take(i as int));
        if seasons.includes(days[i].entity_id.as_str(), season_filter) {
            if let Some(games) = &days[i].games {
                add_day_games(&mut game_ids, games);
            }
        }
    }
    assert(days@.take(days@.len() as int) == days@);
    proof {
        assert forall|id: Seq<char>| #[trigger]
            texts(game_ids@).contains(id) <==> exists|d: int, g: int|
                {
                    &&& 0 <= d < days@.len()
                    &&& days@[d].games is Some
                    &&& 0 <= g < days@[d].games->0@.len()
                    &&& (#[trigger] days@[d].games->0@[g]).game_id is Some
                    &&& days@[d].games->0@[g].game_id->0@ == id
                    &&& season_filter is None || (seasons@.contains_key(days@[d].entity_id@)
                        && seasons@[days@[d].entity_id@] == season_filter->0@)
                } by {
            law_games_are_those_of_the_days(seasons@, slice_text(season_filter), days@, id);
        }
    }
    game_ids
}

/// A day belongs to the season that listed it last; the days that a season does not list stay where
/// they were.
pub proof fn law_last_season_wins(
    seasons: Map<Seq<char>, Seq<char>>,
    season: Seq<char>,
    days: Seq<Seq<char>>,
    n: nat,
    day: Seq<char>,
)
    requires
        n <= days.len(),
    ensures
        days.take(n as int).contains(day) ==> with_days(seasons, season, days, n).contains_key(day)
            && with_days(seasons, season, days, n)[day] == season,
        !days.take(n as int).contains(day) ==> {
            &&& with_days(seasons, season, days, n).contains_key(day) <==> seasons.contains_key(day)
            &&& seasons.contains_key(day) ==> with_days(seasons, season, days, n)[day]
                == seasons[day]
        },
    decreases n,
{
    if n > 0 {
        law_last_season_wins(seasons, season, days, (n - 1) as nat, day);
        let earlier = days.take(n - 1);
        assert(days.take(n as int) =~= earlier.push(days[n - 1]));
        if earlier.contains(day) {
            let i = choose|i: int| 0 <= i < earlier.len() && earlier[i] == day;
            assert(days.take(n as int)[i] == day);
        }
        assert(days.take(n as int)[n - 1] == days[n - 1]);
        if days.take(n as int).contains(day) && day != days[n - 1] {
            let i = choose|i: int| 0 <= i < n && days.take(n as int)[i] == day;
            assert(earlier[i] == day);
        }
    }
}

/// Whether a text is a number that an `i64` can hold.
pub open spec fn is_i64_text(text: Seq<char>) -> bool {
    integer_value(text) matches Some(n) && i64::MIN <= n <= i64::MAX
}

/// The id of the superstar day that a field of a season gives: its name is `SuperstarDay` and a
/// number, and its value is a string.
pub open spec fn superstar_day(name: Seq<char>, value: Json) -> Option<Seq<char>> {
    if starts_with(name, "SuperstarDay"@) && is_i64_text(name.skip("SuperstarDay"@.len() as int)) {
        value.str_text()
    } else {
        None
    }
}

/// The ids of the superstar days that the fields of a season give, in their order.
pub open spec fn superstar_days(fields: Seq<(String, Json)>) -> Seq<Seq<char>>
    decreases fields.len(),
{
    if fields.len() == 0 {
        Seq::empty()
    } else {
        let earlier = superstar_days(fields.drop_last());
        match superstar_day(fields.last().0@, fields.last().1) {
            Some(day) => earlier.push(day),
            None => earlier,
        }
    }
}

/// The ids of the days of a season: the ordinary ones, and then those of the superstars, which are
/// fields of their own.
pub fn season_day_ids(days: Vec<String>, other_fields: &Vec<(String, Json)>) -> (day_ids: Vec<
    String,
>)
    ensures
        texts(day_ids@) == texts(days@) + superstar_days(other_fields@),
        forall|id: Seq<char>| #[trigger]
            texts(day_ids@).contains(id) <==> texts(days@).contains(id) || exists|f: int|
                {
                    let (name, value) = #[trigger] other_fields@[f];
                    &&& 0 <= f < other_fields@.len()
                    &&& starts_with(name@, "SuperstarDay"@)
                    &&& integer_value(name@.skip(12)) is Some
                    &&& i64::MIN <= integer_value(name@.skip(12))->0 <= i64::MAX
                    &&& value is Str
                    &&& value->Str_0@ == id
                },
{
    let ghost ordinary = texts(days@);
    let mut day_ids = days;
    assert(texts(day_ids@) =~= ordinary + superstar_days(other_fields@.take(0)));
    for i in 0..other_fields.len()
        invariant
            texts(day_ids@) == ordinary + superstar_days(other_fields@.take(i as int)),
    {
        let ghost so_far = texts(day_ids@);
        assert(other_fields@.take(i + 1).drop_last() == other_fields@.take(i as int));
        let (key, val) = (&other_fields[i].0, &other_fields[i].1);
        let numbered: bool = match strip_prefix(key.as_str(), "SuperstarDay") {
            Some(number) => parse_i64(number).is_some(),
            None => false,
        };
        if numbered {
            if let Some(day) = val.as_str() {
                day_ids.push(day.to_owned());
                assert(texts(day_ids@) =~= so_far.push(day@));
            }
        }
        assert(texts(day_ids@) =~= ordinary + superstar_days(other_fields@.take(i + 1)));
    }
    assert(other_fields@.take(other_fields@.len() as int) == other_fields@);
    proof {
        assert forall|id: Seq<char>| #[trigger]
            texts(day_ids@).contains(id) <==> ordinary.contains(id) || exists|f: int|
                {
                    let (name, value) = #[trigger] other_fields@[f];
                    &&& 0 <= f < other_fields@.len()
                    &&& starts_with(name@, "SuperstarDay"@)
                    &&& integer_value(name@.skip(12)) is Some
                    &&& i64::MIN <= integer_value(name@.skip(12))->0 <= i64::MAX
                    &&& value is Str
                    &&& value->Str_0@ == id
                } by {
            lemma_contains_joined(ordinary, superstar_days(other_fields@), id);
            law_superstar_days_are_numbered_fields(other_fields@, id);
        }
    }
    day_ids
}

/// The season, to be fetched.
pub fn season_request(season_id: &str) -> (request: FetchRequest)
    ensures
        request.asks_for(
            "https://mmolb.com/api/season/"@ + season_id@,
            EntityKind::Season,
            season_id@,
        ),
{
    FetchRequest {
        url: joined("https://mmolb.com/api/season/", season_id),
        kind: EntityKind::Season,
        entity_id: season_id.to_owned(),
    }
}

/// The day, to be fetched.
pub fn day_request(day_id: &str) -> (request: FetchRequest)
    ensures
        request.asks_for("https://mmolb.com/api/day/"@ + day_id@, EntityKind::Day, day_id@),
{
    FetchRequest {
        url: joined("https://mmolb.com/api/day/", day_id),
        kind: EntityKind::Day,
        entity_id: day_id.to_owned(),
    }
}

/// The game, to be fetched.
pub fn game_request(game_id: &str) -> (request: FetchRequest)
    ensures
        request.asks_for("https://mmolb.com/api/game/"@ + game_id@, EntityKind::Game, game_id@),
{
    FetchRequest {
        url: joined("https://mmolb.com/api/game/", game_id),
        kind: EntityKind::Game,
        entity_id: game_id.to_owned(),
    }
}

/// Under which name the progress of the days of a season is reported.
pub fn season_days_label(season: i64) -> (label: String)
    ensures
        label@ == "season "@ + decimal(season as int) + " days"@,
{
    joined(joined("season ", i64_to_string(season).as_str()).as_str(), " days")
}

/// Whether a game is fetched of which `known_state` is stored, if anything is.
pub fn should_poll(known_state: Option<&str>) -> (poll: bool)
    ensures
        poll <==> slice_text(known_state) != Some("Complete"@),
        known_state is None ==> poll,
        known_state matches Some(state) ==> (poll <==> state@ != "Complete"@),
{
    match known_state {
        Some(state) => !(*state == *"Complete"),
        None => true,
    }
}

/// What is stored of a game beside its observation.
pub fn game_save_model<'a, E>(id: &'a str, game: &'a MmolbGame<E>) -> (model: DbGameSaveModel<
    'a,
    E,
>)
    ensures
        model.game_id@ == id@,
        model.season == game.season,
        model.day == game.day,
        slice_text(model.day_special) == crate::text::optional_text(game.day_special),
        model.day_special is Some <==> game.day_special is Some,
        game.day_special matches Some(name) ==> model.day_special->0@ == name@,
        game.event_log@.len() <= i32::MAX ==> model.event_count == game.event_log@.len(),
        model.home_team_id@ == game.home_team_id@,
        model.away_team_id@ == game.away_team_id@,
        model.state@ == game.state@,
        model.event_count == game.event_log@.len() as i32,
        match model.last_update {
            Some(event) => game.event_log@.len() > 0 && *event == game.event_log@.last(),
            None => game.event_log@.len() == 0,
        },
{
    let day_special: Option<&'a str> = match &game.day_special {
        Some(name) => Some(name.as_str()),
        None => None,
    };
    DbGameSaveModel {
        game_id: id,
        season: game.season,
        day: game.day,
        day_special,
        home_team_id: game.home_team_id.as_str(),
        away_team_id: game.away_team_id.as_str(),
        state: game.state.as_str(),
        event_count: #[verifier::truncate] (game.event_log.len() as i32),
        last_update: game.event_log.last(),
    }
}

/// The ids of the games that were ever heard of: those of a list, those that are stored, and those
/// of the days that are stored.
pub open spec fn all_known_ids(
    preset: Seq<char>,
    stored: Seq<Seq<char>>,
    from_days: Seq<Seq<char>>,
) -> Seq<Seq<char>> {
    distinct_ids(trimmed_nonempty(lines(preset)) + stored + from_days)
}

/// Adds copies of `more` to `ids`.
fn extend(ids: &mut Vec<String>, more: &Vec<String>)
    ensures
        texts(final(ids)@) == texts(old(ids)@) + texts(more@),
{
    let ghost before = texts(ids@);
    assert(texts(ids@) =~= before + texts(more@).take(0));
    for i in 0..more.len()
        invariant
            texts(ids@) == before + texts(more@).take(i as int),
    {
        let ghost so_far = texts(ids@);
        ids.push(more[i].clone());
        assert(texts(ids@) =~= so_far.push(more@[i as int]@));
        assert(texts(ids@) =~= before + texts(more@).take(i + 1));
    }
    assert(texts(more@).take(more@.len() as int) == texts(more@));
}

/// The ids of the games that were ever heard of, each once. `preset` lists one to a line.
pub fn get_all_known_game_ids(
    preset: &str,
    stored: &Vec<String>,
    from_days: &Vec<String>,
) -> (game_ids: Vec<String>)
    ensures
        texts(game_ids@) == all_known_ids(preset@, texts(stored@), texts(from_days@)),
        texts(game_ids@).no_duplicates(),
        forall|id: Seq<char>| #[trigger]
            texts(game_ids@).contains(id) <==> {
                ||| exists|i: int|
                    {
                        let line = #[trigger] lines(preset@)[i];
                        &&& 0 <= i < lines(preset@).len()
                        &&& trimmed(line) == id
                        &&& id.len() > 0
                    }
                ||| texts(stored@).contains(id)
                ||| texts(from_days@).contains(id)
            },
{
    let mut ids = listed_ids(preset);
    extend(&mut ids, stored);
    extend(&mut ids, from_days);
    let known = distinct(&ids);
    proof {
        assert forall|id: Seq<char>| #[trigger]
            texts(known@).contains(id) <==> {
                ||| exists|i: int|
                    {
                        let line = #[trigger] lines(preset@)[i];
                        &&& 0 <= i < lines(preset@).len()
                        &&& trimmed(line) == id
                        &&& id.len() > 0
                    }
                ||| texts(stored@).contains(id)
                ||| texts(from_days@).contains(id)
            } by {
            law_known_games_are_listed_stored_or_of_a_day(
                preset@,
                texts(stored@),
                texts(from_days@),
                id,
            );
        }
    }
    known
}

/// The ids of the games that were ever heard of and are not known to be complete, each once.
pub fn get_known_incomplete_game_ids(
    preset: &str,
    stored: &Vec<String>,
    from_days: &Vec<String>,
    completed: &Vec<String>,
) -> (game_ids: Vec<String>)
    ensures
        texts(game_ids@) == ids_without(
            all_known_ids(preset@, texts(stored@), texts(from_days@)),
            texts(completed@),
        ),
        texts(game_ids@).no_duplicates(),
        forall|id: Seq<char>| #[trigger]
            texts(game_ids@).contains(id) <==> !texts(completed@).contains(id) && {
                ||| exists|i: int|
                    {
                        let line = #[trigger] lines(preset@)[i];
                        &&& 0 <= i < lines(preset@).len()
                        &&& trimmed(line) == id
                        &&& id.len() > 0
                    }
                ||| texts(stored@).contains(id)
                ||| texts(from_days@).contains(id)
            },
{
    let known = get_all_known_game_ids(preset, stored, from_days);
    proof {
        law_without_leaves_the_rest(texts(known@), texts(completed@));
    }
    without(&known, completed)
}

/// No completed game is fetched; every other game of the list, of the store or of the days is, and
/// once.
pub proof fn law_incomplete_games_are_fetched_once(
    preset: Seq<char>,
    stored: Seq<Seq<char>>,
    from_days: Seq<Seq<char>>,
    completed: Seq<Seq<char>>,
    id: Seq<char>,
)
    ensures
        ids_without(all_known_ids(preset, stored, from_days), completed).no_duplicates(),
        ids_without(all_known_ids(preset, stored, from_days), completed).contains(id) <==> (
        trimmed_nonempty(lines(preset)).contains(id) || stored.contains(id) || from_days.contains(
            id,
        )) && !completed.contains(id),
{
    let listed = trimmed_nonempty(lines(preset));
    let all = listed + stored + from_days;
    law_distinct_keeps_each_once(all);
    law_without_leaves_the_rest(distinct_ids(all), completed);
    lemma_contains_joined(listed + stored, from_days, id);
    lemma_contains_joined(listed, stored, id);
    assert(all.contains(id) <==> listed.contains(id) || stored.contains(id) || from_days.contains(
        id,
    ));
}

proof fn lemma_contains_joined(first: Seq<Seq<char>>, second: Seq<Seq<char>>, id: Seq<char>)
    ensures
        (first + second).contains(id) <==> first.contains(id) || second.contains(id),
{
    if first.contains(id) {
        let i = choose|i: int| 0 <= i < first.len() && first[i] == id;
        assert((first + second)[i] == id);
    }
    if second.contains(id) {
        let i = choose|i: int| 0 <= i < second.len() && second[i] == id;
        assert((first + second)[first.len() + i] == id);
    }
}

/// Of the games of a season, each is fetched once, unless it is known to be complete.
pub proof fn law_season_games_are_fetched_once(
    season_game_ids: Seq<Seq<char>>,
    completed: Seq<Seq<char>>,
    id: Seq<char>,
)
    ensures
        ids_without(distinct_ids(season_game_ids), completed).no_duplicates(),
        ids_without(distinct_ids(season_game_ids), completed).contains(id)
            <==> season_game_ids.contains(id) && !completed.contains(id),
{
    law_distinct_keeps_each_once(season_game_ids);
    law_without_leaves_the_rest(distinct_ids(season_game_ids), completed);
    assert(distinct_ids(season_game_ids).contains(id) <==> season_game_ids.contains(id));
}

/// The ids of the seasons that are fetched where all are: those that are stored, and the first
/// three.
pub open spec fn all_seasons(stored: Seq<Seq<char>>) -> Seq<Seq<char>> {
    distinct_ids(
        stored + seq![
            "6805db0fac48194de3cd42d1"@,
            "6846ba011b7a53d888cdef49"@,
            "6858e7be2d94a56ec8d460ea"@,
        ],
    )
}

/// The ids of all seasons, each once.
pub fn all_season_ids(stored: &Vec<String>) -> (season_ids: Vec<String>)
    ensures
        texts(season_ids@) == all_seasons(texts(stored@)),
        texts(season_ids@).no_duplicates(),
        forall|id: Seq<char>| #[trigger]
            texts(season_ids@).contains(id) <==> {
                ||| texts(stored@).contains(id)
                ||| id == "6805db0fac48194de3cd42d1"@
                ||| id == "6846ba011b7a53d888cdef49"@
                ||| id == "6858e7be2d94a56ec8d460ea"@
            },
{
    proof {
        assert forall|id: Seq<char>| #[trigger]
            all_seasons(texts(stored@)).contains(id) <==> {
                ||| texts(stored@).contains(id)
                ||| id == "6805db0fac48194de3cd42d1"@
                ||| id == "6846ba011b7a53d888cdef49"@
                ||| id == "6858e7be2d94a56ec8d460ea"@
            } by {
            law_all_seasons_are_fetched_once(texts(stored@), id);
        }
    }
    let mut ids: Vec<String> = Vec::new();
    extend(&mut ids, stored);
    ids.push("6805db0fac48194de3cd42d1".to_owned());
    ids.push("6846ba011b7a53d888cdef49".to_owned());
    ids.push("6858e7be2d94a56ec8d460ea".to_owned());
    assert(texts(ids@) =~= texts(stored@) + seq![
        "6805db0fac48194de3cd42d1"@,
        "6846ba011b7a53d888cdef49"@,
        "6858e7be2d94a56ec8d460ea"@,
    ]);
    distinct(&ids)
}

/// Every stored season is fetched, and so are the first three; none is fetched twice.
pub proof fn law_all_seasons_are_fetched_once(stored: Seq<Seq<char>>, id: Seq<char>)
    ensures
        all_seasons(stored).no_duplicates(),
        all_seasons(stored).contains(id) <==> {
            ||| stored.contains(id)
            ||| id == "6805db0fac48194de3cd42d1"@
            ||| id == "6846ba011b7a53d888cdef49"@
            ||| id == "6858e7be2d94a56ec8d460ea"@
        },
{
    let first = seq![
        "6805db0fac48194de3cd42d1"@,
        "6846ba011b7a53d888cdef49"@,
        "6858e7be2d94a56ec8d460ea"@,
    ];
    law_distinct_keeps_each_once(stored + first);
    lemma_contains_joined(stored, first, id);
    assert(first[0] == "6805db0fac48194de3cd42d1"@);
    assert(first[1] == "6846ba011b7a53d888cdef49"@);
    assert(first[2] == "6858e7be2d94a56ec8d460ea"@);
    assert((stored + first).contains(id) <==> distinct_ids(stored + first).contains(id));
}

impl PollGameDays {
    /// How often, in seconds, the days and games of the season are fetched.
    pub fn interval() -> (seconds: u64)
        ensures
            seconds == 5 * 60,
    {
        5 * 60
    }

    /// The ids of the games of a season that are not known to be complete, each once.
    pub fn games_to_poll(season_game_ids: &Vec<String>, completed: &Vec<String>) -> (game_ids: Vec<
        String,
    >)
        ensures
            texts(game_ids@) == ids_without(
                distinct_ids(texts(season_game_ids@)),
                texts(completed@),
            ),
            texts(game_ids@).no_duplicates(),
            forall|id: Seq<char>| #[trigger]
                texts(game_ids@).contains(id) <==> texts(season_game_ids@).contains(id)
                    && !texts(completed@).contains(id),
    {
        let ids = distinct(season_game_ids);
        proof {
            law_without_leaves_the_rest(texts(ids@), texts(completed@));
        }
        without(&ids, completed)
    }
}

impl HandleSuperstarGames {
    /// How often, in seconds, the games of the superstars are fetched.
    pub fn interval() -> (seconds: u64)
        ensures
            seconds == 5 * 60,
    {
        5 * 60
    }

    /// The list of the games of the superstars, to be fetched.
    pub fn games_request() -> (request: FetchRequest)
        ensures
            request.asks_for(
                "https://mmolb.com/api/superstar-games"@,
                EntityKind::SuperstarGames,
                "superstar-games"@,
            ),
    {
        FetchRequest {
            url: "https://mmolb.com/api/superstar-games".to_owned(),
            kind: EntityKind::SuperstarGames,
            entity_id: "superstar-games".to_owned(),
        }
    }

    /// The bracket of the last sixteen, to be fetched.
    pub fn bracket_request() -> (request: FetchRequest)
        ensures
            request.asks_for(
                "https://mmolb.com/api/super16-bracket"@,
                EntityKind::Super16Bracket,
                "super16-bracket"@,
            ),
    {
        FetchRequest {
            url: "https://mmolb.com/api/super16-bracket".to_owned(),
            kind: EntityKind::Super16Bracket,
            entity_id: "super16-bracket".to_owned(),
        }
    }

    /// The ids of the games of the superstars, as far as they are known.
    pub fn game_ids(games: &Vec<SuperstarGame>) -> (game_ids: Vec<String>)
        ensures
            texts(game_ids@) == known_ids(games@.map_values(|game: SuperstarGame| game.game_id)),
            forall|id: Seq<char>| #[trigger]
                texts(game_ids@).contains(id) <==> exists|g: int|
                    0 <= g < games@.len() && (#[trigger] games@[g]).game_id is Some
                        && games@[g].game_id->0@ == id,
    {
        let ghost ids = games@.map_values(|game: SuperstarGame| game.game_id);
        let mut game_ids: Vec<String> = Vec::new();
        assert(texts(game_ids@) =~= known_ids(ids.take(0)));
        for i in 0..games.len()
            invariant
                ids == games@.map_values(|game: SuperstarGame| game.game_id),
                texts(game_ids@) == known_ids(ids.take(i as int)),
        {
            let ghost so_far = texts(game_ids@);
            assert(ids.take(i + 1).drop_last() == ids.take(i as int));
            if let Some(id) = &games[i].game_id {
                game_ids.push(id.clone());
                assert(texts(game_ids@) =~= so_far.push(id@));
            }
        }
        assert(ids.take(games@.len() as int) == ids);
        proof {
            assert forall|id: Seq<char>| #[trigger]
                texts(game_ids@).contains(id) <==> exists|g: int|
                    0 <= g < games@.len() && (#[trigger] games@[g]).game_id is Some
                        && games@[g].game_id->0@ == id by {
                law_known_ids_are_those_that_are_there(ids, id);
                assert(forall|g: int|
                    0 <= g < games@.len() ==> #[trigger] ids[g] == games@[g].game_id);
                if exists|g: int| 0 <= g < ids.len() && #[trigger] ids[g] is Some && ids[g]->0@ == id {
                    let g = choose|g: int|
                        0 <= g < ids.len() && #[trigger] ids[g] is Some && ids[g]->0@ == id;
                    assert(games@[g].game_id is Some);
                }
                if exists|g: int|
                    0 <= g < games@.len() && (#[trigger] games@[g]).game_id is Some
                        && games@[g].game_id->0@ == id {
                    let g = choose|g: int|
                        0 <= g < games@.len() && (#[trigger] games@[g]).game_id is Some
                            && games@[g].game_id->0@ == id;
                    assert(ids[g] is Some);
                }
            }
        }
        game_ids
    }
}

impl HandleEventGames {
    /// How often, in seconds, the games of events are fetched.
    pub fn interval() -> (seconds: u64)
        ensures
            seconds == 5 * 60,
    {
        5 * 60
    }
}

/// An id is known exactly where it is there and is that text.
pub proof fn law_known_ids_are_those_that_are_there(ids: Seq<Option<String>>, id: Seq<char>)
    ensures
        known_ids(ids).contains(id) <==> exists|i: int|
            0 <= i < ids.len() && #[trigger] ids[i] is Some && ids[i]->0@ == id,
    decreases ids.len(),
{
    if ids.len() > 0 {
        let earlier = ids.drop_last();
        law_known_ids_are_those_that_are_there(earlier, id);
        let (before, all) = (known_ids(earlier), known_ids(ids));
        if all.contains(id) {
            let k = choose|k: int| 0 <= k < all.len() && all[k] == id;
            if k < before.len() {
                assert(before[k] == id);
                let i = choose|i: int|
                    0 <= i < earlier.len() && #[trigger] earlier[i] is Some && earlier[i]->0@ == id;
                assert(ids[i] is Some);
            } else {
                assert(ids[ids.len() - 1] is Some);
            }
        }
        if exists|i: int| 0 <= i < ids.len() && #[trigger] ids[i] is Some && ids[i]->0@ == id {
            let i = choose|i: int|
                0 <= i < ids.len() && #[trigger] ids[i] is Some && ids[i]->0@ == id;
            if i < earlier.len() {
                assert(earlier[i] is Some);
                let k = choose|k: int| 0 <= k < before.len() && before[k] == id;
                assert(all[k] == id);
            } else {
                assert(all[all.len() - 1] == id);
            }
        }
    }
}

/// The known ids of two lists are those of the first and then those of the second: each id that is
/// there gives itself, in its place, as often as it occurs.
pub proof fn law_known_ids_keep_their_order(
    first: Seq<Option<String>>,
    second: Seq<Option<String>>,
    id: Option<String>,
)
    ensures
        known_ids(first + second) == known_ids(first) + known_ids(second),
        id is None ==> known_ids(seq![id]).len() == 0,
        id is Some ==> known_ids(seq![id]) == seq![id->0@],
    decreases second.len(),
{
    reveal_with_fuel(known_ids, 2);
    assert(seq![id].drop_last() =~= Seq::empty());
    assert(id is Some ==> Seq::<Seq<char>>::empty().push(id->0@) =~= seq![id->0@]);
    if second.len() == 0 {
        assert(first + second =~= first);
        assert(known_ids(first) + known_ids(second) =~= known_ids(first));
    } else {
        law_known_ids_keep_their_order(first, second.drop_last(), id);
        assert((first + second).drop_last() =~= first + second.drop_last());
        assert(known_ids(first + second) =~= known_ids(first) + known_ids(second));
    }
}

/// A day has a game exactly where one of its games has that id.
pub proof fn law_day_has_the_games_that_are_known(games: Seq<DayGame>, id: Seq<char>)
    ensures
        day_game_ids(games).contains(id) <==> exists|g: int|
            0 <= g < games.len() && (#[trigger] games[g]).game_id is Some && games[g].game_id->0@
                == id,
{
    let ids = games.map_values(|game: DayGame| game.game_id);
    law_known_ids_are_those_that_are_there(ids, id);
    if exists|i: int| 0 <= i < ids.len() && #[trigger] ids[i] is Some && ids[i]->0@ == id {
        let i = choose|i: int| 0 <= i < ids.len() && #[trigger] ids[i] is Some && ids[i]->0@ == id;
        assert(games[i].game_id is Some);
    }
    if exists|g: int|
        0 <= g < games.len() && (#[trigger] games[g]).game_id is Some && games[g].game_id->0@ == id {
        let g = choose|g: int|
            0 <= g < games.len() && (#[trigger] games[g]).game_id is Some && games[g].game_id->0@
                == id;
        assert(ids[g] is Some);
    }
}

/// A day is of the season asked for where it is known to belong to that very season; where none is
/// asked for, every day is.
pub proof fn law_day_is_of_the_season_asked_for(
    seasons: Map<Seq<char>, Seq<char>>,
    day: Seq<char>,
    season: Seq<char>,
)
    ensures
        is_included(seasons, day, None),
        is_included(seasons, day, Some(season)) <==> seasons.contains_key(day) && seasons[day]
            == season,
{
}

/// A game is found exactly where some stored day that could be read, and is of the season asked for
/// or none is asked for, has a game with that id.
pub proof fn law_games_are_those_of_the_days(
    seasons: Map<Seq<char>, Seq<char>>,
    season_filter: Option<Seq<char>>,
    days: Seq<StoredDay>,
    id: Seq<char>,
)
    ensures
        game_ids_of_days(seasons, season_filter, days).contains(id) <==> exists|d: int, g: int|
            {
                &&& 0 <= d < days.len()
                &&& days[d].games is Some
                &&& 0 <= g < days[d].games->0@.len()
                &&& (#[trigger] days[d].games->0@[g]).game_id is Some
                &&& days[d].games->0@[g].game_id->0@ == id
                &&& season_filter is None || (seasons.contains_key(days[d].entity_id@)
                    && seasons[days[d].entity_id@] == season_filter->0)
            },
    decreases days.len(),
{
    if days.len() > 0 {
        let earlier = days.drop_last();
        let last = days.last();
        let before = game_ids_of_days(seasons, season_filter, earlier);
        let all = game_ids_of_days(seasons, season_filter, days);
        law_games_are_those_of_the_days(seasons, season_filter, earlier, id);
        let of_last = last.games is Some && (season_filter is None || (seasons.contains_key(
            last.entity_id@,
        ) && seasons[last.entity_id@] == season_filter->0));
        if of_last {
            lemma_contains_joined(before, day_game_ids(last.games->0@), id);
            law_day_has_the_games_that_are_known(last.games->0@, id);
        }
        if all.contains(id) {
            if before.contains(id) {
                let (d, g) = choose|d: int, g: int|
                    {
                        &&& 0 <= d < earlier.len()
                        &&& earlier[d].games is Some
                        &&& 0 <= g < earlier[d].games->0@.len()
                        &&& (#[trigger] earlier[d].games->0@[g]).game_id is Some
                        &&& earlier[d].games->0@[g].game_id->0@ == id
                        &&& season_filter is None || (seasons.contains_key(earlier[d].entity_id@)
                            && seasons[earlier[d].entity_id@] == season_filter->0)
                    };
                assert(days[d] == earlier[d]);
                assert(days[d].games->0@[g].game_id is Some);
            } else {
                let games = last.games->0@;
                let g = choose|g: int|
                    0 <= g < games.len() && (#[trigger] games[g]).game_id is Some
                        && games[g].game_id->0@ == id;
                assert(days[days.len() - 1].games->0@[g].game_id is Some);
            }
        }
        if exists|d: int, g: int|
            {
                &&& 0 <= d < days.len()
                &&& days[d].games is Some
                &&& 0 <= g < days[d].games->0@.len()
                &&& (#[trigger] days[d].games->0@[g]).game_id is Some
                &&& days[d].games->0@[g].game_id->0@ == id
                &&& season_filter is None || (seasons.contains_key(days[d].entity_id@)
                    && seasons[days[d].entity_id@] == season_filter->0)
            } {
            let (d, g) = choose|d: int, g: int|
                {
                    &&& 0 <= d < days.len()
                    &&& days[d].games is Some
                    &&& 0 <= g < days[d].games->0@.len()
                    &&& (#[trigger] days[d].games->0@[g]).game_id is Some
                    &&& days[d].games->0@[g].game_id->0@ == id
                    &&& season_filter is None || (seasons.contains_key(days[d].entity_id@)
                        && seasons[days[d].entity_id@] == season_filter->0)
                };
            if d < earlier.len() {
                assert(earlier[d] == days[d]);
                assert(earlier[d].games->0@[g].game_id is Some);
            } else {
                assert(last.games->0@[g].game_id is Some);
            }
        }
    }
}

/// The games of days in two parts are those of the first and then those of the second: it does not
/// matter which days come before a day, and the games of a day stay together and in order.
pub proof fn law_days_add_up(
    seasons: Map<Seq<char>, Seq<char>>,
    season_filter: Option<Seq<char>>,
    first: Seq<StoredDay>,
    second: Seq<StoredDay>,
    day: StoredDay,
)
    ensures
        game_ids_of_days(seasons, season_filter, first + second) == game_ids_of_days(
            seasons,
            season_filter,
            first,
        ) + game_ids_of_days(seasons, season_filter, second),
        day.games is Some && (season_filter is None || (seasons.contains_key(day.entity_id@)
            && seasons[day.entity_id@] == season_filter->0)) ==> game_ids_of_days(
            seasons,
            season_filter,
            seq![day],
        ) == known_ids(Seq::new(day.games->0@.len(), |g: int| day.games->0@[g].game_id)),
        !(day.games is Some && (season_filter is None || (seasons.contains_key(day.entity_id@)
            && seasons[day.entity_id@] == season_filter->0))) ==> game_ids_of_days(
            seasons,
            season_filter,
            seq![day],
        ).len() == 0,
    decreases second.len(),
{
    reveal_with_fuel(game_ids_of_days, 2);
    assert(seq![day].drop_last() =~= Seq::empty());
    if let Some(games) = day.games {
        assert(games@.map_values(|game: DayGame| game.game_id) =~= Seq::new(
            games@.len(),
            |g: int| games@[g].game_id,
        ));
        assert(Seq::<Seq<char>>::empty() + day_game_ids(games@) =~= day_game_ids(games@));
    }
    let a = game_ids_of_days(seasons, season_filter, first);
    let b = game_ids_of_days(seasons, season_filter, second);
    if second.len() == 0 {
        assert(first + second =~= first);
        assert(a + b =~= a);
    } else {
        law_days_add_up(seasons, season_filter, first, second.drop_last(), day);
        assert((first + second).drop_last() =~= first + second.drop_last());
        assert(game_ids_of_days(seasons, season_filter, first + second) =~= a + b);
    }
}

/// A field gives a superstar day exactly where its name is `SuperstarDay` and then a number that an
/// `i64` can hold, and its value is a string; the day is that string.
pub proof fn law_superstar_day_is_a_numbered_field(name: Seq<char>, value: Json)
    ensures
        superstar_day(name, value) is Some <==> {
            &&& starts_with(name, "SuperstarDay"@)
            &&& integer_value(name.skip(12)) is Some
            &&& i64::MIN <= integer_value(name.skip(12))->0 <= i64::MAX
            &&& value is Str
        },
        superstar_day(name, value) is Some ==> superstar_day(name, value) == Some(value->Str_0@),
{
    reveal_strlit("SuperstarDay");
    assert("SuperstarDay"@.len() == 12);
}

/// A day is one of the superstar days of a season exactly where some field gives it.
pub proof fn law_superstar_days_are_numbered_fields(fields: Seq<(String, Json)>, id: Seq<char>)
    ensures
        superstar_days(fields).contains(id) <==> exists|f: int|
            {
                let (name, value) = #[trigger] fields[f];
                &&& 0 <= f < fields.len()
                &&& starts_with(name@, "SuperstarDay"@)
                &&& integer_value(name@.skip(12)) is Some
                &&& i64::MIN <= integer_value(name@.skip(12))->0 <= i64::MAX
                &&& value is Str
                &&& value->Str_0@ == id
            },
    decreases fields.len(),
{
    if fields.len() > 0 {
        let earlier = fields.drop_last();
        let (before, all) = (superstar_days(earlier), superstar_days(fields));
        law_superstar_days_are_numbered_fields(earlier, id);
        law_superstar_day_is_a_numbered_field(fields.last().0@, fields.last().1);
        if all.contains(id) {
            let k = choose|k: int| 0 <= k < all.len() && all[k] == id;
            if k < before.len() {
                assert(before[k] == id);
                let f = choose|f: int|
                    {
                        let (name, value) = #[trigger] earlier[f];
                        &&& 0 <= f < earlier.len()
                        &&& starts_with(name@, "SuperstarDay"@)
                        &&& integer_value(name@.skip(12)) is Some
                        &&& i64::MIN <= integer_value(name@.skip(12))->0 <= i64::MAX
                        &&& value is Str
                        &&& value->Str_0@ == id
                    };
                assert(fields[f] == earlier[f]);
            } else {
                assert(fields[fields.len() - 1] == fields.last());
            }
        }
        if exists|f: int|
            {
                let (name, value) = #[trigger] fields[f];
                &&& 0 <= f < fields.len()
                &&& starts_with(name@, "SuperstarDay"@)
                &&& integer_value(name@.skip(12)) is Some
                &&& i64::MIN <= integer_value(name@.skip(12))->0 <= i64::MAX
                &&& value is Str
                &&& value->Str_0@ == id
            } {
            let f = choose|f: int|
                {
                    let (name, value) = #[trigger] fields[f];
                    &&& 0 <= f < fields.len()
                    &&& starts_with(name@, "SuperstarDay"@)
                    &&& integer_value(name@.skip(12)) is Some
                    &&& i64::MIN <= integer_value(name@.skip(12))->0 <= i64::MAX
                    &&& value is Str
                    &&& value->Str_0@ == id
                };
            if f < earlier.len() {
                assert(earlier[f] == fields[f]);
                let k = choose|k: int| 0 <= k < before.len() && before[k] == id;
                assert(all[k] == id);
            } else {
                assert(all[all.len() - 1] == id);
            }
        }
    }
}

/// The superstar days of fields in two parts are those of the first and then those of the second;
/// one field gives one day, or none.
pub proof fn law_superstar_days_add_up(
    first: Seq<(String, Json)>,
    second: Seq<(String, Json)>,
    field: (String, Json),
)
    ensures
        superstar_days(first + second) == superstar_days(first) + superstar_days(second),
        superstar_day(field.0@, field.1) is Some ==> superstar_days(seq![field]) == seq![
            superstar_day(field.0@, field.1)->0,
        ],
        superstar_day(field.0@, field.1) is None ==> superstar_days(seq![field]).len() == 0,
    decreases second.len(),
{
    reveal_with_fuel(superstar_days, 2);
    assert(seq![field].drop_last() =~= Seq::empty());
    if let Some(day) = superstar_day(field.0@, field.1) {
        assert(Seq::<Seq<char>>::empty().push(day) =~= seq![day]);
    }
    if second.len() == 0 {
        assert(first + second =~= first);
        assert(superstar_days(first) + superstar_days(second) =~= superstar_days(first));
    } else {
        law_superstar_days_add_up(first, second.drop_last(), field);
        assert((first + second).drop_last() =~= first + second.drop_last());
        assert(superstar_days(first + second) =~= superstar_days(first) + superstar_days(second));
    }
}

/// A game was heard of exactly where a line of the list is its id, but for white space around it,
/// or it is stored, or a day has it; and it is listed once.
pub proof fn law_known_games_are_listed_stored_or_of_a_day(
    preset: Seq<char>,
    stored: Seq<Seq<char>>,
    from_days: Seq<Seq<char>>,
    id: Seq<char>,
)
    ensures
        all_known_ids(preset, stored, from_days).no_duplicates(),
        all_known_ids(preset, stored, from_days).contains(id) <==> {
            ||| exists|i: int|
                {
                    let line = #[trigger] lines(preset)[i];
                    &&& 0 <= i < lines(preset).len()
                    &&& trimmed(line) == id
                    &&& id.len() > 0
                }
            ||| stored.contains(id)
            ||| from_days.contains(id)
        },
{
    let listed = trimmed_nonempty(lines(preset));
    law_distinct_keeps_each_once(listed + stored + from_days);
    lemma_contains_joined(listed + stored, from_days, id);
    lemma_contains_joined(listed, stored, id);
    law_every_line_gives_its_id(lines(preset));
    if listed.contains(id) {
        let k = choose|k: int| 0 <= k < listed.len() && listed[k] == id;
        let i = choose|i: int|
            0 <= i < lines(preset).len() && trimmed(#[trigger] lines(preset)[i]) == listed[k]
                && listed[k].len() > 0;
        assert(trimmed(lines(preset)[i]) == id);
    }
    assert((listed + stored + from_days).contains(id) <==> distinct_ids(
        listed + stored + from_days,
    ).contains(id));
}

} // verus!
