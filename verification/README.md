# codespace

The verified core of CodeSpace, a desktop launcher for VS Code workspaces
(`.code-workspace` files): it finds them on disk, shows their colors and
whether they are open, runs their tasks in consoles or terminal sessions, and
keeps track of their windows.

- `src/` is the library, verified with Verus. Each module states its
  behaviour in `requires`/`ensures` over spec functions; the `law_*` proof
  functions state what holds across calls (on the JSON document model,
  reading a color back after setting it; a session found after it is
  registered; a monitor payload announced once; and so on). The trip
  through a written file rests on `serde_json` printing and parsing, which
  the library names but does not state.
  - `text`, `json`, `jsonc`: character-level text, the JSON document model
    (parsed and printed by `serde_json`), and JSON with `//` comments.
  - `color`, `title`, `workspace`, `scan`, `tasks`, `prompts`: workspace
    colors, window titles, scan results and their order, what a disk scan
    takes, the tasks of `tasks.json`, and the prompts folder.
  - `table`, `terminal`, `monitor`, `window`, `launch`, `tester`: the session
    and live-terminal registries, the workspace monitor, window decisions,
    the program lines of consoles and sessions, and the task tester.
- `app/` is the plain Rust around it: files, processes, threads, the network,
  the window system, and serializable copies of the library's types.
- `tests/` runs the library on concrete values.
