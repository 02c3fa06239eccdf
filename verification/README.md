# Photo Publisher

A verified library for publishing a photo gallery, written in Verus.

- The local pipeline turns the photos of a project into `gallery.json`,
  `state.json`, previews and downloads. Every publication is a generation. It is
  staged, installed in steps and committed through a journal, so that the next
  run recovers a publication that was interrupted.
- The integrated publication compares what was committed locally with a ledger
  of what was confirmed remotely. It plans the difference and carries it out:
  storage first, then one commit to the repository, then hosting. The ledger is
  written before and after every remote change.

## Layout

- `src/` is the library. Its public functions state what they return in
  `requires` and `ensures` clauses that Verus proves from their bodies; only the
  outside calls listed under Trust are believed. The laws that span several
  functions are the public proof functions whose names begin with `law_`.
- `app/` does the reading, writing, decoding and sending around the library.
- `tests/` runs the library.

## Paths

The library reads the paths in records, project files and galleries as Unix does:
a slash separates, and a leading slash makes a path absolute. Where the platform
takes more paths for absolute, `app/` refuses those as well.

## Trust

The library calls `sha2`, `serde_json` and `url`. What it relies on of them is
stated in `src/digest.rs`, `src/json.rs` and `src/public_url.rs`, above the
functions that make the calls. `src/text.rs` states one function of the standard
library.
