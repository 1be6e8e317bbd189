# xcplane

A declarative control plane for Xray servers, with its decisions verified in
Verus.

The library in `src/` holds what is decided and computed: how a declared cloud
is checked and built, how it is reconciled with the running one in the modes
Reload, Remap and Rebase, which remote actions a change needs and in what order,
how services are watched and repaired, what is stored and read back, and how the
daemon answers its commands. It does no input or output. Each function states
what it returns in `ensures`, over mathematical models of the data; what holds of
several functions together is stated and proved in the functions named `law_..`.

- `types`, `text`, `strmap`, `constants`, `workspace`: the data and what it is
  made of
- `cloud`: configuration, secrets, reconciliation, expansion, monitoring
- `ansible`: remote actions and their runs
- `cloudflare`, `xui`: zones, rules and lists; panels and their backups
- `daemon`, `cli`: startup, the lock, the plan of tasks, commands and replies
- `db`, `document`: what is stored, and the text of the configuration
- `outside`: the calls into other crates, with what the library relies on

`app/` is the program around it: arguments, files, sockets, the database, HTTP and
the asynchronous tasks. `tests/` runs the library on concrete values.
