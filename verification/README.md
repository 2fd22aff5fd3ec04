# alice

A toolkit for running stdin/stdout programs as services, in three parts:

- `doll`, a process supervisor driven by commands on standard input
  (`up`, `down`, `send`, `receive`, `error`, `info`, `restart`);
- `pipecore`, a relay between the standard streams and two named pipes;
- `shelf`, an HTTP bridge that announces each request on standard output
  and answers it with the reply line `<id> <body>` read from standard input.

`src/` is the verified library:

- `text` — whitespace, word splitting, trimming, decimal numbers;
- `command` — the supervisor's command language, with the law that a
  written command line parses back to the same command;
- `process` — process records, pipe naming, and the table of running
  processes by name;
- `pipes` — pipe errors and the decisions around finding, creating and
  opening pipes;
- `server` — request messages, reply lines, pending requests by number,
  and the reply handle.

`app/` holds the three programs: the process, file, pipe, thread, signal
and network work around the library (`alice doll`, `alice pipecore`,
`alice shelf [port]`).
