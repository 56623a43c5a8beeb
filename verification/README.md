# che_tauri

An invoke API layer for `che-orm` applications, verified with Verus.

One invoke command reaches every resource of an application: local SQLite
resources, and remote REST resources that are either proxied as they are or
normalized through a serializer (and optionally cached in a local table).

## Layout

- `src/` — the verified library.
  - `json.rs`: the JSON value model; `serde_json` is called for JSON text.
  - `serializer.rs`: serializer fields, payload validation, conversion to
    column values, normalization and caching of remote objects, output objects.
  - `filters.rs`: list filters, query operations, the parameters forwarded to
    remote APIs and the local-only filtering of remote answers.
  - `api.rs`: request planning, remote REST requests, the token header, login,
    and the resource registry.
  - `module.rs`: resource registration by app modules and endpoint metadata.
  - `management.rs`: the generated TypeScript client, app templates, migration
    file names, app names and the apps `mod.rs`.
  - `state.rs`, `config.rs`, `error.rs`, `model.rs`, `text.rs`, `search.rs`.
- `app/` — the I/O around the library: configuration files, the SQLite
  database, HTTP, the invoke entry point and the management command line.
- `tests/` — tests of the library.

Every public function of the library states its result in its contract;
the laws of the library (such as that the last registration of a resource
name wins, that a stored token is sent with every remote request, or that a
new migration number exceeds every existing one) are proof functions named
`law_*`.
