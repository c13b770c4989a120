//! Embedding engine: the work queue of pending chunks, the preparation of
//! model input from token encodings, the admission control of the pooled
//! inference sessions and the partition of batch output into embeddings.

pub mod batch;
pub mod config;
pub mod error;
pub mod input;
pub mod pool;
pub mod project;
pub mod queue;
pub mod schedule;
pub mod tokens;
