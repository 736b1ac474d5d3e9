pub mod address;
pub mod color;
pub mod config;
pub mod error;
pub mod matcher;
pub mod render;
