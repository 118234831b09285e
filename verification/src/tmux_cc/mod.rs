//! The tmux control mode protocol.

pub mod event;
pub mod layout;
pub mod line;
pub mod line_laws;
pub mod parser;
pub mod stream_laws;
pub mod unvis;

pub use event::{Event, Guarded};
pub use layout::{
    parse_layout_tree, TmuxLayoutCell, TmuxLayoutNode, TmuxPaneId, TmuxParser, TmuxSessionId,
    TmuxSplitDirection, TmuxWindowId,
};
pub use line::parse_line;
pub use parser::{Parser, StreamError};
pub use unvis::{unvis, unvis_bytes, Error};
