# redis-pane core

The core of a terminal browser for a Redis keyspace: one pure function, `update`, from a session's
state and a message to the next state and the commands a shell is to carry out. It does no input or
output and reads no clock, so everything it does can be stated, and is proved with Verus.

- `src/state/` holds what a session holds: the loaded keys, the list and the tree over them, the open
  key and its value, the inline editor, a staged write.
- `src/update/` holds what messages do to it, one module per concern, and the laws that hold of every
  message (`laws.rs`, `history.rs`) or of the tree (`folding.rs`).
- `src/area.rs` wraps the text box of `ratatui-textarea`; it and `src/text.rs` hold everything that is
  believed rather than proved.
- `app/` converts between the core's types and those of the crates around it.
- `tests/` runs the library on concrete sessions.

Each type has a model, its view, and each handler's contract says that the view of what it returns is
a specification function of the view of what it was given.
