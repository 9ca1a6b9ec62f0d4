//! Request-handling logic of a small AI-assistant web service: configuration,
//! prompt templates, task decomposition and the Gitea integration.

pub mod chars;
pub mod text;
pub mod decimal;
pub mod stamps;
pub mod tasks;
pub mod config;
pub mod prompts;
pub mod errors;
pub mod api;
pub mod gitea;
