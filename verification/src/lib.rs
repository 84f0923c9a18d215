//! Context management for agent conversations.

pub mod active_thread;
pub mod archive;
pub mod archive_laws;
pub mod authorization;
pub mod cli;
pub mod completion;
pub mod contract_laws;
pub mod embedded_mcp;
pub mod embedded_mcp_laws;
pub mod ids;
pub mod json;
pub mod json_text;
pub mod markdown;
pub mod mcp_bridge;
pub mod memory;
pub mod memory_laws;
pub mod message;
pub mod message_laws;
pub mod paths;
pub mod project_snapshot;
pub mod protocol_laws;
pub mod remote_server;
pub mod request;
pub mod request_laws;
pub mod retry;
pub mod segment_file;
pub mod summary;
pub mod summary_laws;
pub mod templates;
pub mod text;
pub mod text_laws;
pub mod thread;
pub mod thread_laws;
pub mod thread_memory_backend;
pub mod title;
pub mod token_usage;
pub mod tools;
pub mod turn;
pub mod turn_laws;
pub mod ui;
