//! Turns an SVG document into a styled component: the root open tag is
//! normalized, color literals become style variable references, and the
//! result is wrapped together with a stylesheet.

pub mod attributes;
pub mod color;
pub mod config;
pub mod modifier;
pub mod options;
pub mod parser;
pub mod pattern;
pub mod substitution;
pub mod text;
pub mod transpiler;
