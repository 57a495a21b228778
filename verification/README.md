# rust_in_action

A Verus-verified library of small systems programs, with a command-line
front end.

- `src/` is the verified library, one module per program:
  - `file`: an in-memory file that can be opened, closed and read.
  - `cubesat`: a ground station's mailbox and satellites receiving messages.
  - `cpu`: a CHIP-8 style CPU (call, return, add, halt) with a step
    semantics; every run ends, and `run` follows the semantics.
  - `grep`: regular-expression search with context lines (regex crate).
  - `ntp`: NTP request/reply bytes, NTP/Unix time conversion, clock offset
    and delay (byteorder crate).
  - `simple_hash`: flattening a JSON object of strings into pairs.
  - `float_bits`: the sign, exponent and fraction fields of an `f32`.
  - `dns`: message ids, encoding an `A` query and reading the reply
    (rand and trust-dns crates).
  - `hexdump`: formatting one line of a hex dump.
- `tests/` holds the tests, run against the compiled library.
- `app/` is the program: `rust_in_action <program> [args...]`, where the
  network, file, clock and floating-point work happens.
