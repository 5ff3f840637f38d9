//! asciiweather: real weather, redrawn as procedural ASCII art.

pub mod cli;
pub mod config;
pub mod error;
pub mod text;
pub mod scene;
pub mod weather;
pub mod render;
