//! A small local coding agent: events, tools, sessions and the state of its terminal UI.
pub mod agent_core;
pub mod ai;
pub mod app;
pub mod capability;
pub mod cli;
pub mod config;
pub mod config_editor;
pub mod controller;
pub mod event;
pub mod image;
pub mod instruction;
pub mod keys;
pub mod model_picker;
pub mod order;
pub mod session;
pub mod session_json;
pub mod session_picker;
pub mod session_tree;
pub mod submission;
pub mod text;
pub mod tool;
pub mod transcript;
pub mod workspace;
