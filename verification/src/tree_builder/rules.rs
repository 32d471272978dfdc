//! The rules: what each phase does with each kind of token.
//!
//! Every pair of a phase and a token has a rule. A rule either uses the
//! token up, or hands it unchanged to a later phase and does nothing
//! else. What no phase has a use for is reported to the sink and dropped.
//! Once parsing has been ended, that is so of every token.

use crate::tendrils::is_blank;
use crate::tokenizer::XTagKind;
use crate::tree_builder::actions::XmlTreeBuilderActions;
use crate::tree_builder::interface::{issued_at, SinkOp, TreeSink};
use crate::tree_builder::model::XmlTreeBuilderView;
use crate::tree_builder::types::{XToken, XmlPhase, XmlProcessResult};
use crate::tree_builder::XmlTreeBuilder;
use std::borrow::Cow;
use vstd::prelude::*;

verus! {

/// The diagnostic for a token that has no place before the first element.
pub open spec fn start_phase_message() -> Seq<char> {
    "Unexpected token in start phase"@
}

/// The diagnostic for a token that has no place in element content.
pub open spec fn main_phase_message() -> Seq<char> {
    "Unexpected token in main phase"@
}

/// The diagnostic for a token that has no place once content is over.
pub open spec fn end_phase_message() -> Seq<char> {
    "Unexpected token in end phase"@
}

/// The diagnostic for a token that comes once parsing has been ended.
pub open spec fn stopped_message() -> Seq<char> {
    "Unexpected token after the end of parsing"@
}

/// Whether a token is a tag that makes an element: a start tag or an empty
/// tag.
pub open spec fn makes_element(token: XToken) -> bool {
    token matches XToken::XTagToken(tag) && (tag.kind == XTagKind::StartXTag || tag.kind
        == XTagKind::EmptyXTag)
}

/// The phase to which `phase` hands a token on, if it does.
///
/// Before the first element, a tag that makes an element starts the
/// content. The end of input ends the document, whenever it comes. The
/// last phase hands nothing on.
pub open spec fn delegate(phase: XmlPhase, token: XToken) -> Option<XmlPhase> {
    match phase {
        XmlPhase::StartPhase => if makes_element(token) {
            Some(XmlPhase::MainPhase)
        } else if token is EOFXToken {
            Some(XmlPhase::EndPhase)
        } else {
            None
        },
        XmlPhase::MainPhase => if token is EOFXToken {
            Some(XmlPhase::EndPhase)
        } else {
            None
        },
        XmlPhase::EndPhase => None,
    }
}

/// The phase whose rule uses the token up, when the token arrives in
/// `phase`: with three phases, a token is handed on twice at most.
pub open spec fn settle(phase: XmlPhase, token: XToken) -> XmlPhase {
    match delegate(phase, token) {
        None => phase,
        Some(next) => match delegate(next, token) {
            None => next,
            Some(last) => last,
        },
    }
}

/// A token is only ever handed to a later phase, so that no token is read
/// twice in one phase; the phase in which it settles hands it no further;
/// and a phase to which it is handed settles it where the first did.
pub proof fn lemma_settle(phase: XmlPhase, token: XToken)
    ensures
        delegate(phase, token) matches Some(next) ==> next.rank() > phase.rank() && settle(
            next,
            token,
        ) == settle(phase, token),
        settle(phase, token).rank() >= phase.rank(),
        delegate(settle(phase, token), token) is None,
{
}

impl<Handle> XmlTreeBuilderView<Handle> {
    /// The builder once a diagnostic has gone to its sink.
    pub open spec fn unexpected(self, msg: Seq<char>) -> Self {
        self.told(SinkOp::ParseError { msg })
    }

    /// The phase to which the rule of `phase` hands `token` on, if it
    /// does. Once parsing has been ended, nothing is handed on.
    pub open spec fn hands_on(self, phase: XmlPhase, token: XToken) -> Option<XmlPhase> {
        if self.stopped {
            None
        } else {
            delegate(phase, token)
        }
    }

    /// The phase whose rule uses `token` up. Once parsing has been ended,
    /// the builder stays in the phase it is in.
    pub open spec fn settles_in(self, token: XToken) -> XmlPhase {
        if self.stopped {
            self.phase
        } else {
            settle(self.phase, token)
        }
    }

    /// What the rule of `phase` makes of a token that it uses up. `node`
    /// is the handle that the sink answers, where the rule creates a node.
    ///
    /// Before the first element, comments and processing instructions go
    /// under the document node and white space is passed over.
    ///
    /// In content, while an element is open: a start tag opens an element
    /// under the current node and an empty tag adds one there; an end tag
    /// closes the innermost element of its name and a short tag the
    /// current node; text, comments and processing instructions go under
    /// the current node. While none is open, the document node takes the
    /// place of the current node: a start tag opens an element under it,
    /// an empty tag, a comment and a processing instruction are added
    /// there, white space is passed over, and there is nothing to close.
    ///
    /// At the end of input, parsing is ended: whatever is open is closed.
    ///
    /// Every other token is reported to the sink and dropped. So is every
    /// token, whatever the phase, once parsing has been ended.
    pub open spec fn step(self, phase: XmlPhase, token: XToken, node: Handle) -> Self {
        if self.stopped {
            self.unexpected(stopped_message())
        } else {
            self.rule(phase, token, node)
        }
    }

    /// The rules proper: what `step` does while parsing has not been
    /// ended.
    pub open spec fn rule(self, phase: XmlPhase, token: XToken, node: Handle) -> Self {
        match phase {
            XmlPhase::StartPhase => match token {
                XToken::CommentXToken(text) => self.append_comment_to_doc(text, node),
                XToken::PIToken(pi) => self.append_pi_to_doc(pi, node),
                XToken::CharacterXTokens(chars) => if is_blank(chars@) {
                    self
                } else {
                    self.unexpected(start_phase_message())
                },
                _ => self.unexpected(start_phase_message()),
            },
            XmlPhase::MainPhase => if self.no_open_elems() {
                match token {
                    XToken::XTagToken(tag) => match tag.kind {
                        XTagKind::StartXTag => self.append_tag_to_doc(tag, node).add_to_open_elems(
                            node,
                        ),
                        XTagKind::EmptyXTag => self.append_tag_to_doc(tag, node),
                        _ => self.unexpected(main_phase_message()),
                    },
                    XToken::CommentXToken(text) => self.append_comment_to_doc(text, node),
                    XToken::PIToken(pi) => self.append_pi_to_doc(pi, node),
                    XToken::CharacterXTokens(chars) => if is_blank(chars@) {
                        self
                    } else {
                        self.unexpected(main_phase_message())
                    },
                    _ => self.unexpected(main_phase_message()),
                }
            } else {
                match token {
                    XToken::XTagToken(tag) => match tag.kind {
                        XTagKind::StartXTag => self.insert_tag(tag, node),
                        XTagKind::EmptyXTag => self.append_tag(tag, node),
                        XTagKind::EndXTag => self.close_tag(tag),
                        XTagKind::ShortXTag => self.pop(),
                    },
                    XToken::CommentXToken(text) => self.append_comment_to_tag(text, node),
                    XToken::PIToken(pi) => self.append_pi_to_tag(pi, node),
                    XToken::CharacterXTokens(chars) => self.append_text(chars),
                    _ => self.unexpected(main_phase_message()),
                }
            },
            XmlPhase::EndPhase => match token {
                XToken::EOFXToken => self.stop_parsing(),
                _ => self.unexpected(end_phase_message()),
            },
        }
    }
}

impl<Handle, Sink> XmlTreeBuilder<Handle, Sink> where
    Handle: Copy,
    Sink: TreeSink<Handle = Handle>,
 {
    /// Reports a token that the current phase has no use for, and drops
    /// it.
    fn unexpected(&mut self, msg: &'static str) -> (result: XmlProcessResult)
        requires
            old(self)@.wf(),
        ensures
            result is XDone,
            final(self)@ == old(self)@.unexpected(msg@),
            final(self)@.wf(),
    {
        proof {
            self@.lemma_told(SinkOp::ParseError { msg: msg@ });
        }
        self.sink.parse_error(Cow::Borrowed(msg));
        XmlProcessResult::XDone
    }

    /// Applies the rule of `mode` to `token`.
    ///
    /// Where the rule hands the token on, nothing changes and the result
    /// names the phase that reads the token next. Otherwise the token is
    /// used up and the builder is as the rule leaves it. Once parsing has
    /// been ended, the token is reported and dropped whatever `mode` is.
    /// The builder's phase is never changed here.
    pub fn step(&mut self, mode: XmlPhase, token: XToken) -> (result: XmlProcessResult)
        requires
            old(self)@.wf(),
        ensures
            match old(self)@.hands_on(mode, token) {
                Some(next) => result == XmlProcessResult::XReprocess(next, token) && final(self)@
                    == old(self)@ && *final(self).sink() == *old(self).sink(),
                None => result is XDone && final(self)@ == old(self)@.step(
                    mode,
                    token,
                    issued_at(final(self)@.log, old(self)@.log.len() as int),
                ),
            },
            final(self)@.wf(),
    {
        if self.stopped {
            return self.unexpected("Unexpected token after the end of parsing");
        }
        match mode {
            XmlPhase::StartPhase => match token {
                XToken::XTagToken(tag) => match tag.kind {
                    XTagKind::StartXTag | XTagKind::EmptyXTag => XmlProcessResult::XReprocess(
                        XmlPhase::MainPhase,
                        XToken::XTagToken(tag),
                    ),
                    _ => self.unexpected("Unexpected token in start phase"),
                },
                XToken::CommentXToken(text) => self.append_comment_to_doc(text),
                XToken::PIToken(pi) => self.append_pi_to_doc(pi),
                XToken::CharacterXTokens(chars) => if chars.is_blank() {
                    XmlProcessResult::XDone
                } else {
                    self.unexpected("Unexpected token in start phase")
                },
                XToken::EOFXToken => XmlProcessResult::XReprocess(
                    XmlPhase::EndPhase,
                    XToken::EOFXToken,
                ),
                XToken::NullCharacterXToken => self.unexpected("Unexpected token in start phase"),
            },
            XmlPhase::MainPhase => match token {
                XToken::XTagToken(tag) => match tag.kind {
                    XTagKind::StartXTag => if self.no_open_elems() {
                        let root = self.append_tag_to_doc(tag);
                        self.add_to_open_elems(root)
                    } else {
                        self.insert_tag(tag)
                    },
                    XTagKind::EmptyXTag => if self.no_open_elems() {
                        let _ = self.append_tag_to_doc(tag);
                        XmlProcessResult::XDone
                    } else {
                        self.append_tag(tag)
                    },
                    XTagKind::EndXTag => if self.no_open_elems() {
                        self.unexpected("Unexpected token in main phase")
                    } else {
                        self.close_tag(tag)
                    },
                    XTagKind::ShortXTag => if self.no_open_elems() {
                        self.unexpected("Unexpected token in main phase")
                    } else {
                        let _ = self.pop();
                        XmlProcessResult::XDone
                    },
                },
                XToken::CommentXToken(text) => if self.no_open_elems() {
                    self.append_comment_to_doc(text)
                } else {
                    self.append_comment_to_tag(text)
                },
                XToken::PIToken(pi) => if self.no_open_elems() {
                    self.append_pi_to_doc(pi)
                } else {
                    self.append_pi_to_tag(pi)
                },
                XToken::CharacterXTokens(chars) => if !self.no_open_elems() {
                    self.append_text(chars)
                } else if chars.is_blank() {
                    XmlProcessResult::XDone
                } else {
                    self.unexpected("Unexpected token in main phase")
                },
                XToken::NullCharacterXToken => self.unexpected("Unexpected token in main phase"),
                XToken::EOFXToken => XmlProcessResult::XReprocess(
                    XmlPhase::EndPhase,
                    XToken::EOFXToken,
                ),
            },
            XmlPhase::EndPhase => match token {
                XToken::EOFXToken => self.stop_parsing(),
                _ => self.unexpected("Unexpected token in end phase"),
            },
        }
    }
}

} // verus!
