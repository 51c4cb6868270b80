pub mod codec;
pub mod config;
pub mod download;
pub mod engine;
pub mod mcp;
pub mod state;
pub mod text;
pub mod tunnel;
