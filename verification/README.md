# herdr request logic, verified

The logic behind a terminal multiplexer's agent API, written in Verus with
contracts that the verifier checks:

- `tui_probe`: classification of what a pane shows (shell prompt, REPL, vim
  modes, pager, input prompt, running command) from its visible rows.
- `keys`: parsing of key names (`ctrl+c`, `shift+tab`, `f5`, ...) into key presses.
- `agent`: agent states, reported statuses, tab attention, normalization of
  reported labels and custom statuses, bytes of pasted text.
- `cmux`: checks and plans of the layout requests (resize, snapshot, split
  ratio, swap, focus, zoom, tab reorder).
- `wait`, `expect`: the decisions of the polling requests and of the
  multi-step `expect` request; `json` holds the JSON lookups they make.
- `text`, `error`: string helpers and the error type.

`app/` holds the I/O around the library: JSON encoding of answers, the
polling loops, the conversion of key presses for crossterm.
