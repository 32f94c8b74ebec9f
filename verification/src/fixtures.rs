//! Ready-made builders for workdir expressions, as tests and callers want
//! them.

pub mod globs;
pub mod workdir_path;
