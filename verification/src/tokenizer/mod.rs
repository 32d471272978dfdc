//! The tokens that a tokenizer hands to the tree builder.

use crate::names::QualName;
use crate::tendrils::Text;
use std::borrow::Cow;
use string_cache::DefaultAtom;
use vstd::prelude::*;

pub mod states;

verus! {

/// The four shapes of a tag.
#[derive(Debug, Clone, Copy, PartialEq, Eq, Structural)]
pub enum XTagKind {
    /// `<name ...>`: opens an element.
    StartXTag,
    /// `</name>`: closes the nearest open element of that name.
    EndXTag,
    /// `<name ... />`: an element without content.
    EmptyXTag,
    /// `</>`: closes the current element, whatever its name.
    ShortXTag,
}

/// One attribute of a tag.
#[derive(Debug, PartialEq, Eq)]
pub struct Attribute {
    pub name: QualName,
    pub value: Text,
}

/// A tag: its shape, its local name and its attributes in source order.
#[derive(Debug, PartialEq, Eq)]
pub struct XTag {
    pub kind: XTagKind,
    pub name: DefaultAtom,
    pub attrs: Vec<Attribute>,
}

/// A processing instruction.
#[derive(Debug, PartialEq, Eq)]
pub struct XPi {
    pub target: Text,
    pub data: Text,
}

/// A document type declaration.
#[derive(Debug, PartialEq, Eq)]
pub struct Doctype {
    pub name: Option<Text>,
    pub public_id: Option<Text>,
    pub system_id: Option<Text>,
}

/// What the tokenizer emits, one at a time.
#[derive(Debug, PartialEq, Eq)]
pub enum XToken {
    DoctypeXToken(Doctype),
    XTagToken(XTag),
    PIToken(XPi),
    CommentXToken(Text),
    CharacterXTokens(Text),
    EOFXToken,
    NullCharacterXToken,
    XParseError(Cow<'static, str>),
}

} // verus!
