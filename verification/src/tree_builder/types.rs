//! The builder's phases, its own token type and the result of one step.

use crate::tendrils::Text;
use crate::tokenizer::{XPi, XTag};
use vstd::prelude::*;

verus! {

/// The insertion mode: how the next token is read.
#[derive(Debug, Clone, Copy, PartialEq, Eq, Structural)]
pub enum XmlPhase {
    /// Before the first element.
    StartPhase,
    /// Element content.
    MainPhase,
    /// At document level, once content is over.
    EndPhase,
}

impl XmlPhase {
    /// Phases in the order in which a document passes through them.
    pub open spec fn rank(self) -> nat {
        match self {
            XmlPhase::StartPhase => 0,
            XmlPhase::MainPhase => 1,
            XmlPhase::EndPhase => 2,
        }
    }
}

/// A token as the rules see it: parse errors and document type
/// declarations never get this far.
#[derive(Debug, PartialEq, Eq)]
pub enum XToken {
    XTagToken(XTag),
    CommentXToken(Text),
    CharacterXTokens(Text),
    NullCharacterXToken,
    EOFXToken,
    PIToken(XPi),
}

/// What one step did with a token.
#[derive(Debug, PartialEq, Eq)]
pub enum XmlProcessResult {
    /// The token is used up.
    XDone,
    /// The token is to be read again, in the phase given.
    XReprocess(XmlPhase, XToken),
}

/// Why the builder refused a token.
#[derive(Debug, Clone, Copy, PartialEq, Eq, Structural)]
pub enum Unsupported {
    /// Document type declarations are not handled.
    Doctype,
}

} // verus!
