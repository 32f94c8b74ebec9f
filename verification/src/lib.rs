//! A verified engine for mirroring a filtered, path-rewritten view of one
//! repository's file tree into others: a workdir-expression parser, a
//! glob-based tree filter, a move/replace transformation engine, and a tree
//! differ that emits create/update/delete events.

pub mod config;
pub mod event;
pub mod expr;
pub mod fixtures;
pub mod git_tree;
pub mod laws;
pub mod naming;
pub mod parser;
pub mod pattern;
pub mod text;
pub mod transform;
