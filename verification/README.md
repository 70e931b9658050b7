# zhi

A coding agent for the desktop. It talks to a language model, runs the tools that the model asks
for inside the worktree of the user, asks before anything with effects runs, and can take a turn
back.

`src/` is the agent as a library, verified with Verus. It decides everything and performs nothing:

- A turn (`turn.rs`) says what is to be done next (call the model, ask the user, save the
  worktree, run a tool) and is told what came of it.
- A tool call (`toolrun.rs`, `toolout.rs`) is checked, confined to the worktree and turned into a
  plain action; what the action gave is turned into the text for the model.
- A revert (`snapshot.rs`) says which `git` call or deletion comes next.
- The window (`state.rs`, `update.rs`) takes one message at a time and answers with the effects
  that it has; `step.rs` states what each message does.
- The rest reads and writes the formats in between: server-sent events, Markdown, patches,
  addresses and forms, credentials, rows of the database.

What holds of the library as a whole is stated and proved as public proof functions, such as those
in `turn_laws.rs` and `ui_laws.rs`.

The parsers, digests and encoders of outside crates are called through a few functions marked
`external_body`; each says above it what it takes for granted.

`app/` drives the library: the GTK window, HTTP, SQLite, `git`, files and processes. `tests/` holds
the tests of the library.
