//! Project metadata resolution, license rendering and the merge-or-create
//! policy for generated documentation files.

pub mod cli;
pub mod merge;
pub mod metadata;
pub mod text;
