//! Notice: rules, hook management, event classification and status logic for
//! a local Codex notification center.

pub mod text;
pub mod json;
pub mod domain;
pub mod rules;
pub mod codec;
pub mod hooks;
pub mod channels;
pub mod number;
pub mod storage;
pub mod pet;
pub mod server;
pub mod mochi_voice;
pub mod codex_usage;
pub mod app_state;
pub mod commands;
pub mod hook_client;
pub mod hook_laws;
