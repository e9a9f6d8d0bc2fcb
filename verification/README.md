# rsync_win

A verified core of an rsync-style file synchronisation tool for Windows, written in Verus.

`src/` is the library, every function of it checked by Verus against its contract:

- `delta`: the rolling checksum, block signatures (MD4/MD5 through the `md4` and `md-5`
  crates), the delta matcher and delta application, with the round trip proved.
- `filter`: glob patterns, filter rules and rule sets, filter files and `--files-from` lists.
- `fs`: portable metadata and paths, an in-memory file system with its laws (what a write,
  append, rename, removal or directory creation leaves behind), and the sync engine, generic
  over any `PortableFileSystem`, whose dry runs provably leave the file system unchanged. Once
  both sides are walked (`sync_walked`), a sync deletes only receiver extras that may be deleted
  and the destinations it replaces; a dry run reports every deletion it owes and a write for
  every file that is missing or out of date.
- `chmod`, `policy`, `diagnostics`: `--chmod` rules, metadata policies and their reported
  degradations, and diagnostics reports.
- `plan`: command-line option checks and their diagnostics (explicit options, conflicts,
  transfer modes, wire protocol choice), filter-rule planning from options and filter files,
  POSIX metadata requests and summaries, the options handed to a remote-shell or daemon
  peer, the transfer plan's decisions on options and parsed operands, `--stop-at` time
  arithmetic.
- `remote`: remote file lists (the sender's ordering and sorting, receiver selection, index
  and incremental-marker checks), file-list batching with consecutive numbering, sender claim
  checks, transfer summaries, daemon credentials, and the session steps of remote pulls, pushes
  and the sender's request serving.
- `transfer`: sum-head validation, block/token arithmetic, the receiver's token checks (literal
  and copy lengths against the expected file length), checksum negotiation, compression
  suffix rules and delta block sizes.

`app/` holds what touches the machine: the local file system, stream copies, password files,
filter files read from disk, the system clock, and the option formats that use floating point.

`tests/` exercises the library from outside, including the sync scenarios run on the in-memory
file system.
