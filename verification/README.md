# whatport

Find what process is listening on a TCP/UDP port, and free it.

The library (`src/`) is verified with Verus:

- `model`, `error`: listeners, protocol filters, the error kinds with their exit
  codes, hints and messages.
- `matching`: which listeners a request concerns and which processes a kill signals
  (each visible pid once, in first-seen order), with the laws about both.
- `output`, `text`, `json`: the table and JSON renderings, specified character by
  character; JSON string literals come from `serde_json`.
- `probe`, `kill`: the `Probe` and `Killer` seams and the decisions around the OS
  socket table and signal delivery.
- `cli`, `schema`: what an invocation asks for, the output format, the error
  envelope, and the declared error and command catalogs.
- `run` / `run_with` in `lib.rs`: the whole request, stated by `run_outcome`.

`app/` is the command-line program: argument parsing (`clap`), the real socket and
process tables (`netstat2`, `sysinfo`), and the JSON schema document.
