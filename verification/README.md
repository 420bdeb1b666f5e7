# educlient

A client for the Edupage school system, written in Verus.

- `src/` is the verified library: the session state (`Educlient`), the
  reading of the server's answers to a login and to the grades page, the
  JSON document model (`json`, which reads JSON text through `serde_json`),
  the decoding of a user's data from it (`decode`), the data records with
  their lookups (`edupage_data`), the lines of a day's overview
  (`overview`), and the text handling they rest on (`text`).
- `app/` is the command-line program: it makes the HTTP requests with
  `reqwest`, reads and writes files, prints, and hands the library plain
  values.
- `tests/` exercises the library on concrete inputs.
