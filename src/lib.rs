//! A message-driven command dispatcher: recognises command lines, resolves
//! them through grouped and nested commands, applies permission and context
//! checks and windowed rate limits, and counts invocations.

pub mod config;
pub mod counter;
pub mod dispatcher;
pub mod gating;
pub mod ratelimit;
pub mod registry;
pub mod tokenizer;
