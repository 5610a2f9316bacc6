//! Decision core of a hot-reload supervisor for a line-oriented JSON-RPC server.
//!
//! The supervisor rebuilds and restarts a server whenever its sources change
//! and keeps the client unaware of it: the client sees one handshake, then
//! notifications that capability lists may have changed. This crate holds
//! every rule of that as verified code. Processes, pipes, timers and the file
//! watcher stay with the caller, which reports what happens as
//! [`message::Event`]s and carries out the [`message::Action`]s it gets back.
//!
//! - [`language`] and [`config`]: the languages, their default commands and
//!   watch paths, and how configuration overrides resolve.
//! - [`message`]: events, actions and the fixed notification bodies.
//! - [`json`] and [`subscription`]: which client lines subscribe to resources,
//!   and the table that remembers them.
//! - [`model`]: the supervisor as a mathematical state machine.
//! - [`runner`]: the executable supervisor, proved to follow the model.
//! - [`trace`], [`shape`] and [`laws`]: what holds of every run.
//! - [`init`] and [`utils`]: first-run setup and checks on the target root.

pub mod config;
pub mod init;
pub mod json;
pub mod language;
pub mod laws;
pub mod message;
pub mod model;
pub mod runner;
pub mod shape;
pub mod subscription;
pub mod text;
pub mod trace;
pub mod utils;
