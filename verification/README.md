# tsunu_alive

The core of a desktop companion for an AI coding assistant's command-line
tool, written in Verus: every function in `src/` carries a contract that the
verifier proves.

## Layout

- `src/json.rs`, `src/text.rs`, `src/order.rs`: the JSON document model,
  string helpers and the stable ordering the listings use.
- `src/events.rs`: decoding the CLI's stream-json output into front-end events.
- `src/cli.rs`: the messages the app writes to the CLI, its arguments, and the
  answers to its permission requests.
- `src/permission.rs`: the permission hook's state: pending requests and the
  per-session whitelist.
- `src/ide.rs`: the editor-context server's request handling.
- `src/history.rs`: rebuilding a conversation from a session log.
- `src/workspace.rs`, `src/setup.rs`, `src/settings.rs`, `src/image.rs`:
  file menus, skills, sessions, plan files, settings edits, setup markers
  and pasted images.
- `tests/`: tests of the library on concrete values.
- `app/`: the program around the library: processes, sockets, HTTP, files and
  the window host.

Laws that span several functions are public proof functions named `law_*`.
