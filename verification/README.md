# isabelle_core

The core of a server for web applications: it keeps records in collections, lets
accounts sign in and call a JSON API, and hands what it does not know to plugins.

`src/` is the library, and all of it is verified with Verus.

- `text`, `collections`, `item`, `json`: strings, maps in the order of insertion,
  records, and JSON trees.
- `state/`: the stores (in memory, in files, in a document database), the opening
  of a database step by step, the encrypted secret store, paging, and the routing
  tables that are read at startup.
- `server/`: what requests come to. `login`, `user_control`, `signin`, `oauth` and
  `auth_config` are about accounts; `guards` and `api_token` about who a request is
  let through for; `itm/` about changing and listing records; `list_filter` about
  what a client may ask of the database; `secret` and `system` about what
  administrators do; `openapi/` builds the description of the API and renders it.
- `handler/`: plugin routes, uploads, and what the answers of several plugins come
  to.
- `notif/`, `origin`, `startup`, `args`, `plugin_actor_demo`, `util/`: mail,
  cross-origin rules, registration of routes, the set-up, a plugin that agrees to
  everything, and hashes, random values and queries.

A function that waits for something outside (a database, a plugin) is a state
machine or is split in two: the library says what is to be done next and takes what
came back. `app/` does it: it holds the HTTP server, the files, the database client
and the channels to plugins.

Functions that call other crates do so through small wrappers. Each says in its
comment what it takes for granted of the crate that it calls.

The laws, which relate several functions, are public `proof fn`s of the modules that
they are about; those of the description of the API are in `server/openapi/laws`.
