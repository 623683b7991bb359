//! Podcast subscription pipeline: episode state machine, text and path
//! helpers, audio normalization planning and configuration rules.

pub mod strings;
pub mod models;
pub mod pipeline;
pub mod audio;
pub mod text;
pub mod config;
pub mod download;
pub mod summarize;
pub mod feed;
pub mod cli;
