//! What a coding assistant for the terminal decides and computes: how its command line, its
//! configuration and its conversations are read, which agent does what with which tools, and
//! what the user is shown and asked.
//!
//! Reading files, the network, the terminal and the models themselves are left to the program
//! around the library, which hands in what it found and does what it is told.
pub mod agents;
pub mod agents_md;
pub mod approval;
pub mod args;
pub mod auth;
pub mod byte_path;
pub mod bytes;
pub mod catalog;
pub mod chat;
pub mod cli;
pub mod command;
pub mod compaction;
pub mod config;
pub mod custom_commands;
pub mod discovery;
pub mod event_loop;
pub mod factory;
pub mod file_path;
pub mod file_picker;
pub mod headless;
pub mod mcp;
pub mod media_input;
pub mod media_strip;
pub mod memory_cmd;
pub mod message;
pub mod model;
pub mod paths;
pub mod picker;
pub mod prompt;
pub mod prompts;
pub mod raw;
pub mod skills;
pub mod slash;
pub mod sort;
pub mod switch;
pub mod text;
pub mod text_map;
pub mod tracker;
pub mod tracking;
pub mod transcript;
pub mod turn;
pub mod worker;
