# control_plane

The decision core of a code-review control plane, written in Rust and verified with Verus.

- `src/` is the library. Every function states in its contract what it returns or changes, and Verus
  proves it.
  - `a2a/` answers other agents: authentication, submission, polling, streaming and webhooks.
  - `db/` holds the rules of the stored tables: which rows an operation touches and what it makes of
    them. A table is a `Vec` of rows, a time is a number of microseconds.
  - `config`, `egress`, `ids`, `json`, `net`, `order`, `platform` and `text` are what the two build on.
  - The functions named `law_...` state what holds across several functions.
- `tests/` runs the library on concrete values.
- `app/` is the service around it: PostgreSQL, HTTP, the environment, the clock and the resolver.

Calls into other crates stand behind small wrappers marked `external_body`; the comment above each
says which function it calls and what is taken from it without proof.
