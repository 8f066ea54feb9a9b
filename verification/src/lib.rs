pub mod app;
pub mod binary;
pub mod config;
pub mod error;
pub mod laws;
pub mod model;
pub mod num;
pub mod poll;
pub mod text;
pub mod ui;
