# hxdown

A gallery downloader for E-Hentai and NHentai, with its download logic
verified with Verus.

- `src/` — the verified library:
  - `text.rs`: splitting strings into characters, substring search, decimal
    and zero-padded rendering of integers (with their round-trip laws);
  - `html.rs`: a parsed page as plain nodes, and the selectors (attribute,
    class, element name, negation, conjunction, ancestry) used to read it;
  - `crawler/`: gallery metadata, safe directory names, file names, the
    retry policy, the two sites' selectors, and `session.rs`, the download
    of a gallery as a state machine with its transition relation and laws;
  - `err.rs`, `fs/`: the file-system error and the local storage root.
- `app/` — the program: command line, HTTP requests with retries, files on
  disk, JSON of the metadata, and the loop that performs what the state
  machine asks for.
- `tests/` — tests of the library on concrete pages and values.

Usage: `hxdown https://e-hentai.org/g/1741679/e33add3ab7/`
