# crosspoint-api

A client for the HTTP API of the CrossPoint e-reader firmware.

- `src/` is the library, verified with Verus: the request that each API
  operation sends (`request.rs`), the device's base URL and the judgement of a
  reply's status (`client.rs`), errors and status codes (`error.rs`), the JSON text of a list of
  paths and its reading back (`json.rs`), the
  joining of listed file names onto a directory (`filesystem.rs`) and string
  helpers (`text.rs`).
- `app/` sends those requests with `reqwest` and decodes the JSON replies; it
  offers the asynchronous `CrossPointClient` with `status`, `list`, `mkdir`,
  `delete`, `delete_multiple`, `force_delete_directory`, `upload`,
  `download` and `rename`.
- `tests/` exercises the library on concrete values.

File names are read with Unix path rules: `/` is the only separator.
