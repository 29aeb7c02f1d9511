# spectral

The verified core of a personal-data privacy assistant: data-broker
definitions and their validation, an in-memory broker registry, feature
capabilities, identifiers, detection of the user's own PII in local text,
cookie classification and removal bookkeeping, browser rate limiting and
web-form submission planning, and database record helpers.

Layout:

- `src/` — the library, written in Verus; every function carries a
  contract and is verified. Calls into outside crates (regex, globset, url,
  urlencoding, hex, uuid, rand, zeroize) go through small trusted wrappers
  whose contracts are documented beside them.
- `tests/` — tests of the library on concrete values.
- `app/` — the parts around the library: file, database and browser I/O,
  directory walking and threads, and the serialisable forms of the
  library's types.
