//! A verified media-download pipeline: chat-text intake, a durable job queue
//! model, a worker state machine, and per-user podcast feed documents.

pub mod feed;
pub mod intake;
pub mod metadata;
pub mod queue;
pub mod text;
pub mod wire;
pub mod worker;
