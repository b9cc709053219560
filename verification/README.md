# loom

The state logic of Loom, a desktop terminal client for local shells and SSH,
written in Verus: every function in `src/` carries a contract, which Verus
proves for all but a few small wrappers around the standard library, `uuid`
and `chrono` (marked `external_body`, whose contracts are taken on trust and
say in their doc comments what they claim); the public proof functions named `law_*` state properties that
hold across calls (for instance that a stale listing reply never changes the
Files view, or that typing and then pressing Backspace restores an editor).

- `src/` — the verified library. Each module holds one part of the client:
  the pane tree (`pane_layout`), tabs and panes (`tab_manager`, `connect`),
  the text editor (`rename_edit`, `text`), the Files browser (`files`,
  `listing`, `files_panel`, `files_session`, `transfers`, `file_icon`),
  forms and dialogs (`forms`, `ssh_form_state`, `local_form_state`,
  `password_prompt`, `docker_picker`, `transfer_settings`, `settings_edit`),
  the workspace (`workspace_store`, `naming`, `persistence`) and the window
  (`workspace_view`, `tab_bar`, `status`, `sidebar`, `host_info`).
- `tests/` — tests of the library on concrete values.
- `app/` — plain Rust around the library: text and geometry that need
  floating point, and the values read from the machine.

The library does no input or output. A desktop front end, which this crate
does not contain (it needs a UI toolkit and a terminal emulator), is meant to
run shells, SSH sessions, file transfers and timers and hand their outcomes to
these functions; `app/` holds only the parts of such a front end that need no
toolkit.
