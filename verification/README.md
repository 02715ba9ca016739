# rustlog

The request logic of a chat log service, verified with Verus, and the web service around it.

- `src/` is the verified library. Requests are state machines: a function starts one and says
  what it needs next (a lookup by name, a query of the database, a request to the users API), and
  a `resume` method takes the reply and goes on. The library itself does no I/O.
  - `calendar`: the ranges of time that log paths name
  - `collections`, `users`: sets of strings, users by id, and what is remembered of them
  - `search`, `fetch`: the search for users, and a single request for them
  - `app`: the state of the service, opt-outs, and the channels that are logged
  - `migration`: moves a legacy configuration into the database
  - `web`: the requests of the web interface
- `app/` runs those machines on axum, clickhouse and the Twitch API. What the program around it
  supplies (its database queries and the form of its answers) is the trait `Backend`.
- `tests/` runs the library on concrete values.

What is trusted without proof are the items marked `external_body` and `assume_specification`, each
with a comment on what is claimed of chrono, dashmap, rand or the standard library.
