# chron

Keeps the history of [MMOLB](https://mmolb.com), a baseball simulation: it fetches seasons, days,
games, feeds, elections and leaderboards at intervals and stores every observation with the time at
which it was made.

`src/` is the library, verified with [Verus](https://github.com/verus-lang/verus). It holds
everything that is decided or computed:

- `location`, `objectid`, `timestamp`, `text`, `ids`, `json`: the values that the rest works on
- `http`: which responses are read, and the observation that one makes
- `feed_pages`: feeds that come in pages, put together in the order in which things happened
- `entity`, `config`, `app_error`: what is stored, what the programs are told, how the API fails
- `workers`: what each worker fetches and stores when its interval comes round

Calls into `hex`, `time`, `serde_json`, `unicode-normalization` and `reqwest`'s `Url` go through small
trusted functions. Each says above it what it claims of the call.

`app/` is what surrounds the library: the API server, the HTTP client, the database statements and
the loops of the workers. `tests/` runs the library on concrete values.
