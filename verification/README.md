# affine-cli

A command-line client for the AFFiNE GraphQL API, REST blob storage and
real-time sync endpoint, with `colcat`, a small reader for collectd's unix
socket, built from the same sources.

The decisions of the client are a library verified with Verus (`src/`):

- `text`, `json`, `cookies`: strings, a JSON value type with a mathematical
  view, and the session cookie store (a sorted map of names to values).
- `client`: base URLs, authentication headers, request bodies, and how HTTP
  and GraphQL answers (status, `Set-Cookie`, envelopes) are read.
- `cli`, `config`: which server and credentials a command uses, the sign-in
  flows, percent-encoding and the variables of every GraphQL operation.
- `upload`: which path a blob upload takes and how a multipart upload is cut
  into parts.
- `docs`: filling in the titles of a document list, following it page by
  page, and showing it as a table.
- `sync`, `tags`, `yjs`: the payloads and acknowledgements of the Socket.IO
  endpoint, and the scripts run on the workspace's root Yjs document.
- `colcat`: the collectd protocol's reply lines, the reader's arguments, and
  the grouping of metrics by plugin.
- `queries`: the GraphQL operations.

`app/` is the program around it: argument parsing, HTTP, Socket.IO, files,
processes and printing. `tests/` runs the library on concrete values.
