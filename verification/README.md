# helix-lsps

Language servers for Helix that hand their work to the tools of the project that a file belongs to:

- `eslint-lsp` lints with the ESLint of the project, and offers its fixes as a code action, as a
  command and as formatting.
- `prettier-lsp` formats with the Prettier of the project.
- `tsgo-lsp` is a proxy for the native TypeScript compiler. Each project that has its own compiler
  gets its own child process.
- `oxc-lsp` is a proxy for `oxlint` and `oxfmt`, with children for each project.

What the servers decide is a library, `src/`. Its functions are verified with Verus, but for a few
small ones that call `serde_json`, `url` or the standard library: what these state of the call is
trusted. They are marked `external_body`, stand in `json_text`, `url_text` and `project`, and say in
their comments what is claimed of the function that they call. `text` states in the same way what
`String::push` does. What the servers touch is in `app/`: processes, files, threads and the wire.

Paths are those of Unix, in UTF-8: their components are separated by `/` alone.

## How the library and the programs talk

The library never waits. Where it has to know something about the disk it gives a `Probe`, and is
asked again with one more answer in its `Findings` until it gives a result (`disk`, `search`,
`package`, and the `discovery` modules). Where it wants something done it leaves an `Action`, or gives
a `Next` that says which step is to follow (`hub`, and the `proxy` modules).

## Modules

- `text`, `path`, `path_laws`, `json`, `table`, `sort`, `position`: values and their models.
- `json_text`, `url_text`: what `serde_json` and `url` do for the library.
- `lsp`, `params`, `project`: messages, places in parameters, projects and commands.
- `hub`, `hub_laws`: sessions, routes and queues that both proxies share.
- `oxc`, `tsgo`: discovery, proxies, file watching, and what holds of them at every step and of a
  finished walk through the files.
- `eslint`, `prettier`: resolving, workers, documents and answers.
- `fakes`, `xtask`: the stand-ins for child processes, and the installation of the servers.

The scripts that Node runs for the workers of `eslint-lsp` and `prettier-lsp` are built into the
programs (`app/bridge.rs`).
