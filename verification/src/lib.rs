//! Verified core of the sentence binder: capture detection, credential handling,
//! sentence storage rules, search query building and LLM reply cleanup.

pub mod capture;
pub mod constants;
pub mod credential_commands;
pub mod credentials;
pub mod error;
pub mod llm;
pub mod mlx;
pub mod models;
pub mod provider;
pub mod sentence_commands;
pub mod sentences;
pub mod text;
