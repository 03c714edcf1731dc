# lazydap

The decision logic of `lazydap`, a command-line debugger front end that
drives Debug Adapter Protocol adapters (codelldb, debugpy, delve) through a
per-project daemon, written in Verus and proved against its contracts.

## Layout

- `src/` — the verified library. Each module states what its functions
  return over spec functions and views, and proves it:
  - `session`, `breakpoint`, `watch`, `selector`, `inspect`, `launch`: the
    shared data model (ids, locations, breakpoint and watch selection,
    launch configurations, session states and their spellings).
  - `launch_json`, `launches`, `launch_args`: reading `.vscode/launch.json`
    (JSONC stripping, `${...}` expansion, mapping onto configurations),
    merging it with lazydap's own, and building an adapter's launch
    arguments.
  - `adapter`, `discovery`, `translate`, `handshake`, `pump`: the per-adapter
    rules, finding an adapter binary, the launch handshake and the event
    pump as state machines that are handed each message and say what to do
    next.
  - `handlers`, `debuggee`, `spawn`: the daemon's rules for a request, for
    ending a session and its program, and for starting a daemon on demand.
  - `commands`, `cli`, `diagnostics`, `report`, `errors`, `paths`, `config`:
    the command line's decisions, `doctor` and `logs`, the tables printed,
    how failures are named and exited, and where lazydap keeps its files.
  - `stripped`: what stripping comments and trailing commas leaves behind.
  - `text`, `pathname`, `seqs`: string, path and sequence helpers with specs.
- `tests/` — tests of the library on concrete values.
- `app/` — the `lazydap` binary: argument parsing, the file system,
  environment and processes, and the serde shapes of the files it reads.
  It hands the library plain values and prints what comes back.

The daemon itself is not part of this build: its wire protocol, its state
and its event loop are not here, so `app/` answers what needs no daemon
(`doctor`, `logs`, `launches`, `version`, argument checks) and reports every
command that would talk to one as unreachable. The daemon's decisions (the
launch handshake, the event pump, the rules for each request) are in the
library all the same.
