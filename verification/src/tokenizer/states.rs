//! The lexical modes that the tree builder can ask the tokenizer to enter.

use vstd::prelude::*;

verus! {

#[derive(Debug, Clone, Copy, PartialEq, Eq, Structural)]
pub enum XmlState {
    /// Ordinary character data and markup.
    Data,
    /// Inside a CDATA section: markup is not recognised.
    Cdata,
    /// Inside a comment.
    Comment,
    /// Inside a processing instruction.
    Pi,
    /// No further input is lexed.
    Quiescent,
}

} // verus!
