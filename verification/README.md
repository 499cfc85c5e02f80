# hyperlinked

The core of a self-hosted link library server: what it decides when it
lists, searches, shows and maintains saved hyperlinks, written in Verus and
proved against its contracts.

## Layout

- `src/` — the verified library, one module per concern:
  - `query`, `search`, `listing`, `markdown`: the search box language, term
    matching and highlighting, the listing SQL and paging, readable text.
  - `artifacts`, `artifact_routes`, `storage`, `display`: artifact kinds and
    their routes, storage paths and checksums, titles and Open Graph text.
  - `flash`, `requests`, `forms`: flash cookies, request headers and logs,
    form-encoded text.
  - `admin`, `jobs`, `background`, `packing`, `change_feed`, `maintenance`,
    `timestamps`: the admin dashboard and queue, the backup/import/tag
    jobs, backup packing, the change feed, retries, settings and assets.
  - `fonts`, `chromium`, `mdns`, `process_stats`: diagnostics of the
    screenshot tools, the mDNS advertisement, and process statistics.
  - `text`, `numbers`: the text and number primitives the rest is built on.
- `tests/` — tests of the library through its public functions.
- `app/` — the I/O around the library: HTTP headers, files, commands,
  clocks, locks and the serde forms of its types.

Each module states its functions' results as spec functions over sequences
and numbers; the public `law_*` proof functions state what holds across
calls (a message is shown once, job reports from stale jobs are ignored,
the change feed is ordered, backup payloads are written in list order).
