//! Adaptive meeting-summarization core.
//!
//! The library turns an arbitrarily long transcript into a structured
//! markdown report by orchestrating calls to a pluggable LLM backend.
//! It covers token estimation, boundary-preserving text chunking, the
//! single-pass vs. multi-level strategy decision, partial-failure-tolerant
//! chunk summarization, summary combination, template-driven final prompt
//! construction, and LLM-output sanitization.
//!
//! The LLM transport itself, message storage, the template registry and
//! prompt localization are external collaborators: the pipeline is a
//! verified state machine that hands out the requests to make and
//! consumes the answers that come back.

pub mod chars;
pub mod chat;
pub mod chunker;
pub mod engine;
pub mod estimator;
pub mod heading;
pub mod pipeline;
pub mod prompting;
pub mod sanitizer;
pub mod strategy;
