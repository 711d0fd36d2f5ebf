//! A chat bot that tells Feishu chats of events in GitHub repositories.
//!
//! The library decides and computes; whoever runs it does the input and output. Where a
//! decision needs something from outside, a function returns a step that says what to do,
//! and another function takes what came of it.
pub mod command;
pub mod credential;
pub mod feishu;
pub mod github;
pub mod json;
pub mod laws;
pub mod message;
pub mod reply;
pub mod subscription;
pub mod text;
