//! Deterministic developer tools: file viewing with safety caps, boundary-clamped
//! search context, transactional edits, process polling decisions, git status
//! parsing, prose style checks, agent hook routing and MCP request dispatch.
//!
//! The file system, processes, sockets and clocks are reached by the
//! surrounding program; this crate holds the decisions made on what they return.

pub mod text;
pub mod matcher;
pub mod grep;
pub mod view;
pub mod style;
pub mod hooks;
pub mod poll;
pub mod edit;
pub mod git;
pub mod mcp;
pub mod catalog;
pub mod laws;
