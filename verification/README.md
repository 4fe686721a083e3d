# vessel

Core of Vessel, a desktop file search for local folders: it walks configured
root folders, keeps a SQLite catalog of the files with a full-text index, and
answers searches over paths and, optionally, file text.

The library under `src/` is written in Verus. Every function carries a
contract; all of them are proved against it except a few thin wrappers around
std, `globset`, `tokio-util` and `uuid`, whose contracts are trusted:

- `text`: whitespace, trimming, decimal rendering and other string helpers.
- `path_norm`: cleaning of user-entered root paths and settings.
- `search`: FTS5 query construction and the extension filter.
- `content_extract`: text normalization, extension lists, change signatures
  and the per-file decision of what text to index.
- `index`, `roots`: how a scan updates file and root rows.
- `config`, `dto`: the settings and their stored form.
- `scan`: exclusion globs and batching of walked files.
- `jobs`: the registry of scan jobs, the decisions of a scan run (a state
  machine the worker drives) and its progress reports.
- `commands`: checks behind saving settings, starting a scan and opening files.
- `db`, `windows_explorer`, `job_types`: schema checks, Explorer arguments and
  job labels.

`app/` is the thin shell around it: file and database I/O, the directory walk,
PDF extraction, the worker thread and serde copies of the data types.
