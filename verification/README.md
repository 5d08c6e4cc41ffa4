# uc_drive2

The backend of a small personal drive: a file tree kept in SQLite over a
storage directory, offline downloads through a supervised gopeed-web engine,
and downloads from UC Drive share links, served over HTTP on a local port.

## Layout

- `src/` is the verified library (Verus).  It holds the decisions of the
  backend as functions from plain values to plain values, each with a
  contract:
  - `files`, `download`, `mime`, `models`: the file tree (paths under the
    storage root, unique names, listing sync, rename and move, the directory
    tree, byte ranges and download answers);
  - `tasks`, `uc_refresh`, `gopeed`: download tasks, the sync round, the
    refresh of stale UC links and the engine supervisor, written as state
    machines that the caller drives;
  - `uc`: share links, cookies, paging and walking a share, link probes;
  - `crypto`: the encrypted storage of the UC cookie;
  - `config`, `access_log`, `routes`, `error`, `text`, `clock`: paths and
    ports, the access log buffer, request checks, HTTP errors and helpers.
  Calls into `aes-gcm`, `base64`, `rand`, `chrono`, `url` and `std::path`
  stand behind small trusted functions whose contracts say what those
  crates document.
- `app/` is the program around it: the HTTP server (axum), SQLite
  (rusqlite), the file system, the gopeed process and its REST API, and the
  UC web API (reqwest).  It performs the actions the library decides on.
- `tests/` runs the library on concrete values.

The laws of the library are public proof functions named `law_*`, or
clauses of the contracts they concern.
