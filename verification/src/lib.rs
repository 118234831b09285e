//! tmux control mode for a terminal multiplexer.

pub mod action;
pub mod command_laws;
pub mod config;
pub mod event_laws;
pub mod format_item;
pub mod id_map;
pub mod layout_laws;
pub mod string_table;
pub mod style_laws;
pub mod sync_laws;
pub mod tab;
pub mod text;
pub mod text_laws;
pub mod tmux;
pub mod tmux_cc;
pub mod tmux_commands;
pub mod tmux_laws;
pub mod tmux_layout;
pub mod tmux_listing;
pub mod tmux_results;
pub mod tmux_style;
pub mod tmux_sync;
