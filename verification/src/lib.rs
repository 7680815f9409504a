//! OpenGoose: the decision logic of a multi-agent orchestration tool, verified.

pub mod text;
pub mod logs;
pub mod source;
pub mod tui_app;
pub mod key_command;
pub mod commands;
pub mod keys;
pub mod tui_event;
pub mod paths;
pub mod skills_load;
pub mod lock;
pub mod frontmatter;
pub mod discover;
pub mod evolver;
pub mod panels;
pub mod board_cli;
pub mod web;
pub mod cli;
pub mod workers;
pub mod agent_stream;
pub mod sandbox;
pub mod session_logs;
