//! Repository scanning and tech-stack detection, with its rules verified.

pub mod text;
pub mod path;
pub mod time;
pub mod order;
pub mod folder_map;
pub mod types;
pub mod manifest;
pub mod detector;
pub mod error;
pub mod context;
pub mod scanner;
pub mod config;
pub mod pipeline;

pub use crate::pipeline::run_pipeline;
