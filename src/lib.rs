//! A line-oriented substring search: decides which lines of a text hold a
//! pattern, applies the match-limit policy, and renders what is printed.

pub mod render;
pub mod report;
pub mod scan;
pub mod text;
