//! Core logic of a website uptime monitor built around an append-only
//! stream with consumer groups: a producer that turns the website
//! registry into check-request events, a gateway that builds stream
//! commands and decodes stream replies, and a worker that classifies
//! probe outcomes, bounds probe concurrency, and acknowledges exactly
//! the entries whose results were persisted.

pub mod api;
pub mod commands;
pub mod event;
pub mod limiter;
pub mod probe;
pub mod producer;
pub mod registry;
pub mod stream_model;
pub mod wire;
pub mod worker;
