//! Koid core: the rules and data handling of the Koid desktop agent,
//! verified with Verus.

pub mod agent;
pub mod backup;
pub mod chat;
pub mod discovery;
pub mod dsml;
pub mod failover;
pub mod history;
pub mod json;
pub mod keyring;
pub mod llm;
pub mod mcp;
pub mod models;
pub mod plugin;
pub mod prompts;
pub mod providers;
pub mod proxy;
pub mod registry;
pub mod request;
pub mod schema;
pub mod skills;
pub mod stream;
pub mod text;
pub mod utils;
pub mod workspace;
pub mod window;
