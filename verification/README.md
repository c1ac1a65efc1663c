# gated_proxy

A proxy in front of a model server. It refuses requests while the machine is under load,
unless a model was loaded recently; keeps a record of every chat completion that passes
through; unloads models that have idled for too long; and unloads a model whose output
degenerates into one repeated character.

The decisions are a verified library, in `src/`:

- `haywire`: what counts as degenerate output.
- `chat`, `telemetry`: the records of chat completions, and their registry.
- `stream`: reading the events of a streamed response as its bytes pass through.
- `clock`, `config`, `load`, `monitor`: clock readings, the settings, the load windows, and
  the refresh of what is known of the models, as a machine from events to actions.
- `endpoint`, `text`: the calls to the model server, and their addresses.
- `proxy`: what becomes of a request and of its answer.

`app/` is the server around it: HTTP, JSON, the sensors, and the load averages, which are
floating-point numbers. Its settings are read from the file that the environment variable
`GATED_PROXY_CONFIG` names, or else from `config.json`.

The sensors are read with the crate `all-smi`. Its dependency tree is larger than all others
together, so `Cargo.toml`, which the library and its tests share, does not list it: add it
there to build the server.
