# frama_c_mcp

The decision core of a tool server around Frama-C, as a verified library, and
the server around it.

- `src/` is the library. It holds what the server decides and computes: how
  statuses are read and proof goals classified, how receipts are put together and
  hashed, which paths and options are accepted, what a parse log and a batch run
  of the provers say, which requests are tried and how the answers are reported,
  when a process is started again, what is recorded of a sandbox. Every function
  states what it returns, over mathematical models of its arguments; `law_*`
  functions state what holds across functions. `outside.rs` holds what is
  believed of other crates and of the standard library.
- `tests/` runs the library on concrete values.
- `app/` is ordinary Rust: processes, sockets, files, environment and protocol.
  It performs what the library decides and hands back what came of it. The wire
  protocol is behind the traits of `app/client.rs`, and so is what is read off
  texts whose wording belongs to Frama-C. Verify profiles and a second run at
  double the timeout are refused: the app does not offer them.
