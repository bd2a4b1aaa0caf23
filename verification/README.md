# roe_core

The core of a text editor in the manner of Emacs, verified with Verus.

- `src/` is the library. Every function in it is proved against its contract.
  - Text: `rope`, `text`, `undo`, `syntax`, `buffer`, `kill_ring`, `gutter`.
  - The editor: `ids`, `slots`, `window`, `editor`, `editing`, `opening`, `visiting`,
    `file_watcher`, `merge_laws`.
  - Modes and prompts: `keys`, `mode`, `command_registry`, `command_mode`, `selection_menu`,
    `buffer_switch_mode`, `isearch_mode`, `scripted_mode`, `text_dict`, `buffer_host`.
  - Sessions: `session`, `renderer`, `frontend`.
  - The native side: `native_services`, `native_kernel`, `native_io`.
  - Scripts and policy: `julia_runtime`, `julia_calls`, `mica_host`.
- `tests/` runs the library with the crates that it calls.
- `app/` is ordinary Rust around it: clocks, files, processes, the clipboard, and the tasks that
  carry keys and requests to the core. It needs an installed Julia.

The library calls `ropey`, `slotmap` and `similar`, and a few functions of the standard library that
have no specification. What is believed of them stands in the contracts of the functions marked
`external_body`, each with a comment that says so.
