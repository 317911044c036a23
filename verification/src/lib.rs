//! Core logic of the Synthia coding assistant: permission rules, text
//! wrapping, project naming, configuration defaults and tool helpers,
//! each stated and proved with Verus.

pub mod text;
pub mod config;
pub mod params;
pub mod paths;
pub mod urls;
pub mod permission_config;
pub mod permission_manager;
pub mod project;
pub mod ui_text;
pub mod messages;
pub mod input;
pub mod tools;
pub mod todo;
pub mod types;
pub mod session;
pub mod json_parser;
pub mod diff;
pub mod registry;
pub mod wire;
pub mod sse;
pub mod commands;
pub mod webfetch;
pub mod colors;
pub mod jsonl_logger;
pub mod project_context;
pub mod agent;
pub mod display;
pub mod context;
pub mod markdown;
pub mod cache;
