# s3_tui

A terminal browser for Amazon S3 and S3-compatible services (LocalStack,
MinIO): list buckets and folders, filter, mark objects, upload local files
with per-file metadata and a storage class, download, delete, inspect objects,
and keep a local SQLite cache of folder listings.

The browser's logic is a Verus library under `src/`, with its behaviour stated
in `requires`/`ensures` contracts and proved:

- `app`, `events` — the browser state and the state machine that turns key
  presses and the results of background work into the next state and the
  outside work to carry out (`Effect`).
- `filepicker`, `fuzzy`, `ranking` — the local file picker: listing order,
  fuzzy filtering and ranking, multi-selection.
- `metadata`, `storage` — the per-file metadata editor and storage classes.
- `config`, `cli` — configuration, command-line options and the precedence
  that resolves the connection settings.
- `remote`, `cache`, `timefmt` — the S3 answers turned into listings and
  details, transfer paths, and the rules of the listing cache.
- `view`, `theme` — the text of the panels and the choice of colour theme.
- `text` — string operations the rest is built on.

`app/` is the program around it: terminal input and drawing (crossterm,
ratatui), the S3 client (aws-sdk-s3), the SQLite file (rusqlite), the file
system and the environment. `tests/` runs the library on concrete values.
