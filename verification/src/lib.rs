//! Language-server logic for the Rustimate storytelling DSL.

pub mod text;
pub mod syntax;
pub mod parser;
pub mod completion;
pub mod diagnostics;
pub mod requests;
pub mod line_scan;
