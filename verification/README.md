# modelrouter

An OpenAI-compatible router for language models. The library under `src/` holds
its rules as verified code: every function states what it returns, and Verus
proves it. What talks to the network, the database and the templates is under
`app/` and only carries out what the library decides.

## Layout

- `src/api/routes/`: what each `/v1` endpoint does. An endpoint that waits for
  others between its decisions is a flow: a state machine that names the next
  action and takes what came of it.
- `src/api/admin/`: the admin surface. Sessions, OIDC, budgets, keys, models and
  aliases, experiments and their results, comparisons, reports, and the HTML
  fragments of the dashboard.
- `src/api/`: errors, attribution, API keys, failure records, the limit per
  address.
- `src/records.rs`: the records that are stored.
- `src/json.rs`, `src/text.rs`, `src/ordered.rs`, `src/text_map.rs`,
  `src/sums.rs`, `src/codec.rs`, `src/clock.rs`: the models that the contracts
  speak of (JSON documents, texts, ordered maps, sums), and the calls into
  outside crates that they rest on.
- `app/`: an axum application around the library. The program that hosts it
  implements the traits in `app/services.rs`.
- `tests/`: the library on concrete values.

## Numbers

Verified code does no floating-point arithmetic. An amount of money is carried as
the bits of a double, and a quotient as its two parts; `app/numbers.rs` adds,
divides and formats.

## What is trusted

Calls into outside crates stand behind small functions whose contracts are
believed. Each has a doc comment that names the outside function and says what is
claimed of it.
