# coverdrop

The administration tool and the API service of CoverDrop, with their logic
verified by Verus.

- `src/` is the verified library: the key hierarchy the API serves
  (`hierarchy`), the key ceremony's steps and what they require and record
  (`ceremony`), the answers to signed uploads (`uploads`), the API's errors
  and responses (`error`, `api_rules`), dead drop limits (`dead_drops`), the
  constants files for the mobile apps (`constants_file`), journalist names
  (`journalist`) and backup restores (`backups`).
- `app/` is the program around it: the command line, files, the database,
  the HTTP server and the cryptography of the `common` crate.
- `tests/` runs the library on concrete values.

Times in the library are microseconds since the Unix epoch; durations are
microseconds unless a name says seconds.
