# beadsd

A single-writer issue service. One long-running process owns one central issue
database for one project and is the only process that runs `br` against it.
Agents on any host call this service instead of sharing the database on a
filesystem. `beads` is its thin client.

The decisions of both are a library whose contracts are proved with Verus:

- `src/server.rs`, `src/requests.rs`, `src/args.rs`: which `br` command line each
  request becomes, and which reply each outcome becomes. A passed-through command
  chooses the central database and no other, before any `--`.
- `src/client.rs`, `src/reply.rs`: the call each verb of the client makes, and
  what the client prints and exits with on each reply. What the service says of a
  command is what the client ends with.
- `src/remotes.rs`, `src/help.rs`: which service the client talks to, and whose
  help it shows.
- `src/committer.rs`, `src/paths.rs`: when a snapshot of the issues is committed,
  and with which git commands.
- `src/config.rs`: defaults, the order of the configuration layers, and the flags.
- `src/json.rs`, `src/process.rs`, `src/text.rs`: JSON values as `serde_json`
  holds them, what processes leave behind, and texts.

`app/` holds the rest: the HTTP server, processes, files, the environment and the
command line. It is one program; started under the name `beads` it is the client.
