pub mod brp_client;
pub mod config;
pub mod dead_letter_queue;
pub mod diagnostics;
pub mod error;
pub mod graph;
pub mod keyed;
pub mod mcp_server;
pub mod messages;
pub mod pipeline;
pub mod security;
pub mod text;
pub mod tool_orchestration;
