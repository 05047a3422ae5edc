//! A documentation-build helper that post-processes rendered book chapters:
//! heading lines are classified by their markdown prefix and, where the
//! per-chapter configuration assigns a style class to that heading level,
//! wrapped in an HTML tag carrying the class.

pub mod config;
pub mod laws;
pub mod lines;
pub mod styler;
pub mod text;
