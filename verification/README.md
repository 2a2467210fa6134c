# aginxbrowser (verified core)

The verified library behind a lightweight server-side browser service.
`src/` holds the logic, proved with Verus:

- `lifecycle` — page lifecycle states and the `waitUntil` names.
- `watchdog` — the per-command V8 watchdog as a state machine (arm,
  disarm, worker wake-ups) with its laws.
- `v8_flags` — one-shot application of V8 flags.
- `errors` — classification of error messages into HTTP answers.
- `server` — request/response values, browser options, cookie scoping,
  settle times, the content a fetch returns (narrowed by a selector in
  every format, cut to `max_chars`) and the answer to a click.
- `extract` — text and Markdown extraction on top of `scraper` and
  `html2md`.
- `text` — character-level string helpers, including `trim` with the
  semantics of `str::trim`.

`app/` is the HTTP front end (axum), the watchdog's worker thread and the
V8 plumbing. `tests/` exercise the library with the real outside crates.

## Not included

- The page operations themselves (navigation, evaluation, the cookie store)
  belong to the browser engine's `browser`, `page`, `cookie` and
  `obscura_net` modules, which are not part of this tree. The library holds
  their decisions; `app/` routes only `/health`.
- The request interceptor types (`InterceptAction`, `RequestInterceptor`)
  carry the engine's own request and response types from
  `obscura_net::client`, which is not part of this tree either.
- The Markdown path requires that `html2md` renders the chosen HTML
  (`extract::markdown_renders`); nothing can decide that before the call.
