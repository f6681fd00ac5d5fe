//! Core logic of the `suffix` command-line client for suffix.org: account
//! profiles, shortcut argument resolution, API routing, and structured output.

pub mod text;
pub mod trusted;
pub mod accounts;
pub mod shortcuts;
pub mod output;
pub mod json;
pub mod records;
pub mod api;
pub mod session;
pub mod manual;
pub mod laws;
pub mod payloads;
pub mod prompts;
pub mod replies;
pub mod adding;
pub mod guarantees;
