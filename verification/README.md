# tuono

The build tooling of the tuono React/Rust framework, as a verified library
and a thin command line around it.

`src/` holds the logic, with contracts proved by Verus:

- `manifest`: from the bundler's manifest to the bundles of each route, and
  the lookup of a request path (exact route, then dynamic and catch-all
  routes, then the client bundle).
- `env`: the `.env` files of a mode, their precedence and the process
  environment's.
- `syntax`, `typescript`, `file_types`, `types_jar`: the Rust types that
  derive `Type`, read from source and written as TypeScript declarations;
  duplicates across files.
- `route`, `route_directory_info`: the routes and middlewares of the routes
  folder.
- `source_builder`: the generated Axum router and entry point, the fallback
  page and the files a build writes.
- `dev`, `process_manager`: what a batch of file events asks the development
  watcher to refresh and restart, and the start order of its processes.
- `scaffold_project`, `url`, `external_url`: scaffolding a new project from
  the framework's repository.
- `request`, `payload`, `vite_reverse_proxy`, `config`: what the server reads
  of a request and sends to the client.
- `text`, `strmap`: strings as character sequences and a string-keyed map.

`app/` is the program: command-line parsing, the file system, the network,
the file watcher and the processes, each step handing plain values to the
library and carrying out what it returns.
