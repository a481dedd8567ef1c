# borink

Utilities for serving derived artifacts of Git repositories and for password-less
storage of login state, with their logic verified by Verus.

- `src/` is the verified library: a compact set of seen numbers; AES-GCM-SIV encryption of
  sessions and login states and the OPAQUE login flow around it; Git addresses, the
  store layout, parsing of `git ls-remote` output and the state machine that resolves an
  address to a directory; the key-value metadata layout; the ref store and response cache
  contracts; request routing and header handling of the server; the client's sync plan;
  lazily (de)serialized values. `src/laws.rs` states the properties that span several
  functions (round trips, read-after-write, sortedness, termination of resolving).
- `app/` is the program around it: running `git` and `typst`, the SQLite and redb stores,
  the HTTP server, the command lines and the serde form of lazy values.
- `tests/` exercise the library with the real outside crates.

The traits through which the library meets the outside world (`GitRefStore`,
`ResponseCache`, `ResourceDeriver`, `GitPathResolver`) carry their promises through
`obeys_*`, `derives` and `resolves`, which default to promising nothing. The in-memory
stores in `src/` declare that they obey; the SQLite and redb stores, the Typst plugin and
the resolver over the store on disk in `app/` are plain Rust and declare nothing, so for
the shipped program the cache and store contracts say what is passed and when an answer
is read, not what the disk gives back.
