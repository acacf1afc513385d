//! The bridge between a desktop front end and a video-compression command-line
//! tool: a catalog of encoding presets shown as choices, and the outcome of one
//! run of the tool.

pub mod catalog;
pub mod invoke;
pub mod label;
pub mod text;
