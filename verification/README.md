# tmux_control

A client for tmux's control mode (`tmux -CC`): it reads the control stream, keeps tabs and
panes in line with tmux's windows and panes, sends commands one at a time, and turns tmux
style strings into format items.

- `src/tmux_cc/` reads the stream: `vis` escapes, the lines of the protocol, guarded command
  output, and window layouts.
- `src/tmux_layout.rs` turns an n-ary tmux layout into a binary tree of panes.
- `src/tmux_commands.rs` writes commands and reads their answers.
- `src/tmux.rs`, `src/tmux_sync.rs`, `src/tmux_listing.rs` and `src/tmux_results.rs` are the state of a session and
  what events, listings and answers make of it. They hold plain values; what has to be done
  in the multiplexer comes out as a list of actions (`src/action.rs`).
- `src/tmux_laws.rs` states what holds of a session as a whole; other laws stand beside the
  functions they speak of, and their names begin with `law_`.
- `src/tmux_style.rs` reads `#[...]` style directives.
- `app/` runs a session inside a multiplexer: it performs the actions and hands back what
  came of them.

All of `src/` is verified with Verus. What it takes on trust is `String::push`,
`String::from_utf8_lossy` and `std::str::from_utf8` (`src/text.rs`), and which names and
notations `termwiz` understands as a color (`src/tmux_style.rs`).
