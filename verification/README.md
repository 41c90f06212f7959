# webapp

A small people directory served over HTTP.

- `src/` is the verified library: the person records (`person`), the
  repository interface and its in-memory implementation (`repository`), the
  abstract table with the laws of its operations (`table`), the SQL text of
  the PostgreSQL repository (`statements`), decimal identifiers (`text`), the
  request routing (`routes`) and the answers of each handler (`replies`).
- `app/` is the service: it connects to PostgreSQL (`PSQL_CONNECTION`),
  sends the library's statements, and serves the API on port 8080 with warp.
- `tests/` runs the library: the service scenarios against the in-memory
  repository, and the edge cases of each part.
