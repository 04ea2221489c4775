# aqueira

A TCP port scanner that also fingerprints the services it finds: the
`Server` header of HTTP ports, the greeting of the SSH server, and whether
the FTP servers accept anonymous logins.

- `src/` is the library, with its specifications and proofs. It decides which ports are
  scanned and how they are classified (`ports`, `scan`), runs each service
  probe as a state machine that says what to do next and interprets the
  answers (`probe`, `ftp`, `ssh`, `http`), parses what the user types
  (`input`), and builds the report (`features`). `text` holds the string
  algorithms with their specifications; `traits` the shared decoding of
  answers; `custom_errors` the error type.
- `app/main.rs` is the program: terminal input, the concurrent connection
  attempts, the TCP and HTTP exchanges the probes ask for, and logging.
- `tests/` exercises the library on concrete values, including comparisons
  with the standard library's own parsing, trimming and line splitting.
