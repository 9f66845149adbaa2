# jmap_dumper (verified core)

The verified part of a tool that dumps Unreal Engine reflection data and
re-emits it as `.jmap`, `.jmap.gz`, `.usmap` or a C++ header.

- `src/verbosity.rs` – the `Verbosity` levels and their order.
- `src/diag.rs` – the diagnostics state (verbosity level and warning
  counter) with the switch, query and counting operations and their laws.
- `src/text.rs` – character-level string operations: suffix and prefix
  tests, cutting at a character, and the short name of an object path.
- `src/parse.rs` – the command line's hexadecimal and `MAJOR.MINOR` parsers.
- `src/files.rs` – which input or output format a file name selects.
- `src/usmap.rs` – the reflection data as the schema translation reads it,
  the `.usmap` property schema, and the translation between them.
- `app/main.rs` – the command line, file and gzip I/O and JSON handling
  around the library.
- `tests/` – tests on concrete values for every public function.
