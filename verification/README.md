# cockpit_tui

The state and decision logic of a terminal chat front end, written in Verus. What
each function returns or changes is stated in its contract and proved.

- `src/` is the library. `composer`, `editor`, `editing`, `paste` and `tag` are the
  prompt composer; `dialog` holds the modal dialogs; `chrome`, `banner_box`,
  `context_menu`, `context_pane`, `daemon_prompt` and `diff` are views that are
  built as plain lines. `app` ties them together: `app::state` is the state,
  `app::keys`, `app::mouse` and `app::events` are its three state machines, and
  `app::effect` names what they leave to be done outside.
- `app/` is the terminal front end around the library: it draws, reads keys and
  the mouse, runs programs and talks to the daemon.
- `tests/` runs the library.

Types that hold text or collections have a view, a mathematical value that the
contracts speak of; the contracts speak of plain values as they are.
Operations on the application are named by spec functions on `AppView`; those that
take part in large case distinctions are opaque and are revealed where they are
used. Laws that relate several operations are public proof functions, beside the
operations or in `app::event_laws` and `app::key_laws`.

Outside crates are called in few places: `unicode-width` for the columns of a text,
`similar` for line diffs, `rand` for the line that is shown while an agent works,
`uuid` for ids, and `serde_json` for the arguments of tool calls.
