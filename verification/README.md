# ki

The part of the Ki editor that decides: what is said to language servers and what is made of their
answers, which directory is a workspace, when a server may start again, how a file is indented and
saved, which lines belong to a conflict, which node of a syntax tree is selected next.

`src/` is a library in Verus. Its functions state in contracts what they return, and the contracts
are proved. The library touches no file, no process and no clock: it is told what is known, and says
what is to be done. A session with a language server, for instance, is a state and a step: a message
comes in, and the next state and a list of actions come out.

`app/` is ordinary Rust around the library: it starts processes, reads and writes their pipes, runs
threads, lists directories, locks files and writes logs.

`tests/` runs the library on concrete values.

## Layout

- `text`, `decimal`, `json`, `path`, `table`: what the rest is built on.
- `process_command`, `formatter`: commands, how they are started, and what their end means.
- `editor_config`, `jj_conflict`, `bounded_log`, `wakatime`, `run_config`: one concern each.
- `syntax_node`, `global_reveal`: what is selected and shown.
- `lsp::transport`, `lsp::reader`: messages on the wire.
- `lsp::protocol`, `lsp::messages`, `lsp::capabilities`, `lsp::decode`, `lsp::uri`,
  `lsp::positions`: what the messages are made of.
- `lsp::session`, `lsp::session_laws`, `lsp::outcome`, `lsp::process`: what a session does, what
  holds of every session, and the session itself.
- `lsp::server_config`, `lsp::configuration`, `lsp::warnings`, `lsp::workspace_data`,
  `lsp::roots`: how a server is set up.
- `lsp::channel`, `lsp::key_table`, `lsp::manager`, `lsp::code_action`: the editor's end.
