# load_thing

LoadThing is a small HTTP reverse proxy configured by a Nix file, with a table
logger, coloured error reports and a plugin interface.

- `src/` is the verified library (Verus): configuration lookup over the Nix
  syntax tree (`config`), request rewriting and the per-client session state
  machine (`network`), error texts, request records and the table logger
  (`helpers`), plugin file selection and the example plugin's request counter
  (`plugins`), the forward proxy that routes by `Host` header (`host_proxy`),
  and the text utilities they share (`text`).
- `app/` is the program around it: reading the configuration file, sockets,
  TLS, threads, dynamic loading of plugins and printing.
- `tests/` runs the library on concrete inputs.
