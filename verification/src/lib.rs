//! A streaming tree builder for XML-like markup.
//!
//! Tokens go in one at a time; the builder turns them into primitive
//! commands for a tree sink, keeping a stack of the elements that are
//! still open.

pub mod atoms;
pub mod names;
pub mod tendrils;
pub mod tokenizer;
pub mod tree_builder;
