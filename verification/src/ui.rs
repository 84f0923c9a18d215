//! What dialogs show, and what happens in them.

pub mod context_server_docs;
pub mod context_server_prompts;
pub mod laws;
pub mod remote_server_modal;
