# dx_blog

The logic of a Dioxus/SQLite blog, written in Verus: every function under
`src/` carries a contract that Verus proves.

- `src/` — the verified library: the MDX body parser and embed
  configuration, Markdown rendering (pulldown-cmark and ammonia behind
  trusted wrappers), slugs, LIKE escaping and the SQL text of every query,
  breadcrumbs and permission-gated routing, the live reader and admin
  activity state machines, comment merging, editor and taxonomy decisions,
  pagination, the home-page layouts and the seed plan. Laws that relate
  several functions are public proof functions named `law_*`.
- `tests/` — tests on concrete values.
- `app/` — the server and UI shell: axum routes, sqlx queries that run the
  library's SQL, Dioxus components, and the serde/FromRow twins of the
  library's types.
