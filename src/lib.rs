//! A line-oriented TCP trigger: each configured component owns one port, and
//! every connection carries exactly one newline-terminated request line whose
//! answer comes from the component's guest handler.
//!
//! The modules hold the decisions of that design as verified state machines;
//! the sockets, tasks and guest runtime that feed them events live outside.
pub mod config;
pub mod connection;
pub mod executor;
pub mod guest;
pub mod listener;
pub mod supervisor;
pub mod text;
