pub mod error;
pub mod text;
pub mod types;
pub mod steps;
pub mod cache;
pub mod ui;
pub mod commands;
pub mod shell;
