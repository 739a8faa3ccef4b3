//! Orchestration core of a local-LLM desktop assistant.
//!
//! The library holds the verified logic: reconstruction of streaming
//! tool-call deltas, the bounded tool-calling loop, the inference-server
//! lifecycle state machine, download accounting with cancellation, the
//! settings model, and the small text codecs the persistence layer uses.
//! All process, network and file I/O lives outside, in a thin shell that
//! feeds these state machines plain values.

pub mod calculator;
pub mod catalog;
pub mod chat;
pub mod clock;
pub mod conversation;
pub mod download;
pub mod jsoncodec;
pub mod lifecycle;
pub mod model;
pub mod openai;
pub mod orchestrator;
pub mod settings;
pub mod shelltool;
pub mod text;
pub mod title;
pub mod toolcall;
pub mod tools;
pub mod webtools;
