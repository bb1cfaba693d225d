//! Axon: the verified core of a command-line agent that talks to an
//! OpenAI-compatible LLM, runs tools ("atoms") and keeps a JSONL memory.

pub mod config;
pub mod foreign;
pub mod text;
pub mod memory;
pub mod atoms;
pub mod llm;
pub mod skills;
pub mod executor;
pub mod cli;
pub mod search;
