//! Screen-state classification and request planning for an agent-driven
//! terminal multiplexer API.

pub mod text;
pub mod tui_probe;
pub mod agent;
pub mod keys;
pub mod cmux;
pub mod error;
pub mod json;
pub mod wait;
pub mod expect;
