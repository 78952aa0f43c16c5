//! Legion's decision logic: the rules behind the desktop coding assistant's
//! Ollama client, tool loop, workspace tools and installer, with their contracts.

pub mod text;
pub mod weburl;
pub mod installer;
pub mod download;
pub mod install_steps;
pub mod security;
pub mod json;
pub mod ollama;
pub mod tools;
pub mod tool_loop;
pub mod requests;
pub mod persistence;
pub mod workspace;
pub mod search;
pub mod chat_stream;
pub mod results;
pub mod ndjson_text;
pub mod encoding;
