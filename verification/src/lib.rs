//! Core of a coding-assistant shell: a tool registry with three execution
//! strategies (in-process, subprocess, remote call) and the conversation
//! state machine that drives them.
//!
//! The library holds the logic: message ordering, dispatch routing,
//! definition validation, and the synthesis of tool results. The thin
//! process around it performs the actual I/O (file access, process
//! spawning, network requests) and feeds the outcomes back in as events.

pub mod agent_loop;
pub mod bash;
pub mod definition;
pub mod executors;
pub mod file_ops;
pub mod json;
pub mod messages;
pub mod search;
pub mod text;
pub mod todo;
pub mod tool_registry;
pub mod tools;
