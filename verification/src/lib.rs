//! Core of a desktop chat client for a local language-model server: a
//! markdown renderer for streamed, possibly partial replies, the streaming
//! chat state machine with cancellation, conversation history and per-profile
//! memory stores, and the small pieces of text logic around them.
pub mod engine;
pub mod jobs;
pub mod render;
pub mod state;
pub mod store;
pub mod text;
pub mod utils;
