# ferret

A self-hosted deal tracker: it scrapes second-hand marketplaces and stores, recognises what a
listing offers, matches it against the watches of its user, and pushes what is worth a look.

`src/` is the library: everything that ferret decides, written in Verus with its behaviour
stated in contracts and proved. `app/` is ordinary Rust around it: the HTTP server, SQLite,
the network, the timers and the pages.

## The library

| Modules | What they decide |
| --- | --- |
| `text`, `decimal`, `reading`, `ratio`, `money`, `order`, `table`, `time`, `json`, `schema`, `pattern` | texts, exact numbers, orders, association lists, JSON values and their faults, patterns |
| `normalize`, `attributes`, `family`, `category`, `price`, `matching`, `refine` | what a listing says: price, URL, capacity, condition, models, category, signals |
| `scrape`, `websearch`, `sources`, `scheduler`, `search` | which pages to fetch, what they list, when to try again |
| `pipeline`, `ingest`, `fetch`, `watches`, `history`, `notify` | what to store of a listing, whom to tell, at which price |
| `llm`, `ask`, `chat`, `interpret` | what to ask a language model, and what its answers mean |
| `db`, `db_rows`, `db_category`, `seeds`, `config`, `settings`, `status`, `client`, `shell` | rows, seeds, settings, statuses, requests |
| `ui` | what the pages show and what their controls mean |

Each type has a mathematical model, its `deep_view`, and contracts speak of models only. What
an outside crate computes has a name of its own (`regex_captures`, `url_read`, `json_read`,
`page_rows` and the like), and the wrapper that makes the call says so.

Work that alternates with the outside is a state machine: `ingest::Ingest` for a listing,
`fetch::Fetch` for the listings of one fetch, `chat::Chat` for a call to the model, the crawls
under `scrape` for a source, `ui::guided` for a page. The library
says what to do next; `app/` does it and reports back.
