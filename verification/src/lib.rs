//! Core data structures and utilities of an optimizing compiler: economic
//! collections, the compiler graph and its traversal helpers, debugging
//! support and compilation orchestration.
use vstd::prelude::*;

pub mod collections;
pub mod compiler_core;
pub mod debug;
pub mod graph;
pub mod text;

verus! {
}
