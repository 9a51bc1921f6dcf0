# herdr_fleet

The logic of the herdr fleet client: one terminal that shows the content of
several herdr instances, local and remote, behind a shared sidebar.

- `src/` is the verified library. It holds the registry of remotes, the
  `remote` command, the sidebar, the composition of frames, the routing of
  input, the handling of fleet events, the reconnecting of content streams and
  the theme of the shell. Every function states its behaviour over a
  mathematical model of its arguments; public proof functions whose names begin
  with `law_` state what holds across functions.
- `app/` is ordinary Rust around it: files, sockets, threads and the host
  terminal. The library decides and queues effects; `app/` performs them and
  hands back what came of it.
- `tests/` runs the library on concrete values.

The library takes on trust `str::trim`, the `Debug` form of a text,
`Path::join` and SHA-256 from the `sha2` crate. Each is declared beside its
callers with what is assumed of it.
