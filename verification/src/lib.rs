//! Verified core logic of the AstrCode agent runtime: prompt assembly,
//! extension protocol tables, tool-result artifacts, deferred tool
//! visibility and turn scheduling decisions.

pub mod acp_bridge;
pub mod background;
pub mod cli;
pub mod deferred_tools;
pub mod events;
pub mod extension;
pub mod extension_host;
pub mod hooks;
pub mod http_auth;
pub mod image_processing;
pub mod json;
pub mod keyed;
pub mod json_value;
pub mod llm;
pub mod mcp_names;
pub mod mcp_http;
pub mod memory;
pub mod models;
pub mod permissions;
pub mod prompt;
pub mod prompt_files;
pub mod s6r;
pub mod session_fork;
pub mod session_operations;
pub mod small_llm;
pub mod stale_repair;
pub mod text;
pub mod tool_result;
pub mod turn_scheduler;
pub mod tui_input;
pub mod tui_layout;
pub mod tool_artifacts;
pub mod user_prompt;
pub mod utf8_len;
pub mod version;
