//! Core of a retrieval-augmented generation service: prompt construction,
//! autoregressive decoding with a configurable sampling policy, stop-sequence
//! filtering of the output stream, and a knowledge store for ingesting
//! documents and retrieving nearest-neighbor context.
pub mod conf;
pub mod error;
pub mod handle;
pub mod knowledge_base;
pub mod llm;
pub mod model;
pub mod openai;
pub mod sampling;
pub mod stopping_stream;
pub mod util;
