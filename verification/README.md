# sashiko

Tools around a kernel patch-review service, with their logic verified in Verus:

- a dashboard server that keeps a list of remote review servers in SQLite and
  aggregates their statistics into one view;
- a repository monitor that watches git branches and submits each new commit for
  review, retrying failed submissions a bounded number of times;
- a cleanup tool that deletes patchsets (and everything depending on them) unless
  they are in review or reviewed;
- an OpenAI-compatible chat completions client, including the assembly of streamed
  (server-sent events) answers.

## Layout

- `src/` — the verified library. Every function carries a contract over
  mathematical models (`Seq`, `Map`, spec functions), and the properties that span
  several calls are stated as public proof functions (`lemma_*`).
  - `dashboard.rs` — aggregation of the servers' answers, its overflow check, and the
    30 s aggregate cache (`lemma_fresh_cache_served`).
  - `monitor/` — configuration defaults, per-branch sync state and the decisions of a
    polling round (a round stops at the first failed sync), git and sync command lines,
    the retry policy (`max_retries` retries after the first run).
  - `cleanup.rs` — which patchsets may be deleted, and the ordered delete cascade.
  - `openai/` — request/response conversion, SSE framing, the stream parser (its
    processing is stated by `parser::run`; `lemma_run_extend` and `lemma_push_split`
    show that `[DONE]` ends a stream at once and that chunking never changes the
    outcome), stream accumulation, error classification (with the `Retry-After` header
    and the rate-limit retry hint), endpoint and client settings.
  - `settings.rs`, `logging.rs`, `text.rs`, `numbers.rs`, `order.rs`, `sums.rs` —
    start-up settings, log-writer outcomes, and verified string/number helpers.
- `app/` — the executable around it: HTTP server (axum, sqlx), HTTP client
  (reqwest), git and process execution, files, JSON (serde), and the loops that feed
  outside events to the library's decisions.
- `tests/` — tests of the library on concrete values.
