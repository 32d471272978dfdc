//! The tree builder: it owns the stack of open elements and the current
//! phase, and drives each token through the rules until it is used up.

use crate::names::QualName;
use crate::tokenizer;
use crate::tokenizer::states::XmlState;
use crate::tree_builder::interface::{issued_at, SinkOp};
use crate::tree_builder::model::XmlTreeBuilderView;
use crate::tree_builder::rules::lemma_settle;
use crate::tree_builder::types::{Unsupported, XToken, XmlPhase, XmlProcessResult};
use vstd::prelude::*;

pub use crate::tree_builder::interface::{NodeOrText, Tracer, TreeSink};

pub mod actions;
pub mod interface;
pub mod laws;
pub mod model;
pub mod record;
pub mod rules;
pub mod types;

verus! {

/// The XML tree builder.
pub struct XmlTreeBuilder<Handle, Sink> {
    /// Consumer of tree modifications.
    sink: Sink,
    /// The document node, which is created by the sink.
    doc_handle: Handle,
    /// Next state change for the tokenizer, if any.
    next_tokenizer_state: Option<XmlState>,
    /// Stack of open elements, most recently added at end.
    open_elems: Vec<Handle>,
    /// Current tree builder phase.
    phase: XmlPhase,
    /// Whether parsing has been ended.
    stopped: bool,
}

/// A token of the tokenizer as the rules see it. A parse error and a
/// document type declaration never reach the rules.
pub open spec fn rule_token(token: tokenizer::XToken) -> Option<XToken> {
    match token {
        tokenizer::XToken::PIToken(pi) => Some(XToken::PIToken(pi)),
        tokenizer::XToken::XTagToken(tag) => Some(XToken::XTagToken(tag)),
        tokenizer::XToken::CommentXToken(text) => Some(XToken::CommentXToken(text)),
        tokenizer::XToken::NullCharacterXToken => Some(XToken::NullCharacterXToken),
        tokenizer::XToken::EOFXToken => Some(XToken::EOFXToken),
        tokenizer::XToken::CharacterXTokens(chars) => Some(XToken::CharacterXTokens(chars)),
        tokenizer::XToken::XParseError(msg) => None,
        tokenizer::XToken::DoctypeXToken(doctype) => None,
    }
}

impl<Handle> XmlTreeBuilderView<Handle> {
    /// The builder once the request for a lexical mode has been read.
    pub open spec fn query_state_change(self) -> Self {
        XmlTreeBuilderView { next_tokenizer_state: None, ..self }
    }

    /// The builder once it has asked for the lexical mode `state`.
    pub open spec fn set_next_tokenizer_state(self, state: XmlState) -> Self {
        XmlTreeBuilderView { next_tokenizer_state: Some(state), ..self }
    }

    /// A token run to completion: it is handed on until it settles, the
    /// builder stays in the phase in which it settled, and that phase's
    /// rule uses it up.
    pub open spec fn process_to_completion(self, token: XToken, node: Handle) -> Self {
        let phase = self.settles_in(token);
        self.in_phase(phase).step(phase, token, node)
    }

    /// The builder once it has been given `token`. A parse error goes to
    /// the sink and has no other effect; a document type declaration has
    /// no effect at all; any other token is run to completion, which, once
    /// parsing has been ended, is to report it and drop it. `node` is the
    /// handle that the sink answers, where a node is created.
    pub open spec fn process_token(self, token: tokenizer::XToken, node: Handle) -> Self {
        match token {
            tokenizer::XToken::XParseError(msg) => self.told(SinkOp::ParseError { msg: msg@ }),
            tokenizer::XToken::DoctypeXToken(doctype) => self,
            _ => self.process_to_completion(rule_token(token)->0, node),
        }
    }
}

impl<Handle, Sink> View for XmlTreeBuilder<Handle, Sink> where
    Handle: Copy,
    Sink: TreeSink<Handle = Handle>,
 {
    type V = XmlTreeBuilderView<Handle>;

    closed spec fn view(&self) -> XmlTreeBuilderView<Handle> {
        XmlTreeBuilderView {
            doc: self.doc_handle,
            open_elems: self.open_elems@,
            phase: self.phase,
            next_tokenizer_state: self.next_tokenizer_state,
            stopped: self.stopped,
            log: self.sink.log(),
        }
    }
}

impl<Handle, Sink> XmlTreeBuilder<Handle, Sink> where
    Handle: Copy,
    Sink: TreeSink<Handle = Handle>,
 {
    /// The builder's sink.
    pub closed spec fn spec_sink(&self) -> &Sink {
        &self.sink
    }

    /// The record in a builder's view is that of its sink.
    pub proof fn lemma_view_log(&self)
        ensures
            self@.log == self.sink().log(),
    {
    }

    /// Create a new tree builder which sends tree modifications to a
    /// particular `TreeSink`. The builder asks the sink for the document
    /// node, once, and keeps that handle for good.
    pub fn new(sink: Sink) -> (builder: XmlTreeBuilder<Handle, Sink>)
        ensures
            builder@ == (XmlTreeBuilderView {
                doc: builder@.doc,
                open_elems: Seq::<Handle>::empty(),
                phase: XmlPhase::StartPhase,
                next_tokenizer_state: None,
                stopped: false,
                log: sink.log().push(SinkOp::GetDocument { node: builder@.doc }),
            }),
            builder@.wf(),
    {
        let mut sink = sink;
        let doc_handle = sink.get_document();
        XmlTreeBuilder {
            sink: sink,
            doc_handle: doc_handle,
            next_tokenizer_state: None,
            open_elems: Vec::new(),
            phase: XmlPhase::StartPhase,
            stopped: false,
        }
    }

    /// Gives the sink back.
    pub fn unwrap(self) -> (sink: Sink)
        ensures
            sink == *self.sink(),
    {
        self.sink
    }

    /// The sink, to look at.
    #[verifier::when_used_as_spec(spec_sink)]
    pub fn sink<'a>(&'a self) -> (sink: &'a Sink)
        ensures
            sink == self.sink(),
    {
        &self.sink
    }

    /// The sink, to be changed in place. The builder's own state stays as
    /// it is; its view then holds the record of the sink as the caller
    /// left it.
    pub fn sink_mut<'a>(&'a mut self) -> (sink: &'a mut Sink)
        ensures
            *sink == *old(self).sink(),
            *final(self).sink() == *final(sink),
            final(self)@ == (XmlTreeBuilderView { log: final(sink).log(), ..old(self)@ }),
    {
        &mut self.sink
    }

    /// Call the `Tracer`'s `trace_handle` method on every `Handle` in the
    /// tree builder's internal state: the document node first, then the
    /// open elements from the outermost to the current node.
    pub fn trace_handles<T>(&self, tracer: &mut T) where T: Tracer<Handle = Handle>
        ensures
            final(tracer).seen() == old(tracer).seen().push(self@.doc) + self@.open_elems,
    {
        tracer.trace_handle(self.doc_handle);
        let n: usize = self.open_elems.len();
        let mut i: usize = 0;
        while i < n
            invariant
                n == self.open_elems.len(),
                i <= n,
                tracer.seen() == old(tracer).seen().push(self.doc_handle) + self.open_elems@.take(
                    i as int,
                ),
            decreases n - i,
        {
            tracer.trace_handle(self.open_elems[i]);
            i += 1;
        }
    }

    /// The names of the open elements, outermost first.
    pub fn open_elem_names(&self) -> (names: Vec<QualName>)
        requires
            self@.wf(),
        ensures
            names@ == self@.names(),
    {
        let mut names: Vec<QualName> = Vec::new();
        let n: usize = self.open_elems.len();
        let mut i: usize = 0;
        while i < n
            invariant
                self@.wf(),
                n == self.open_elems.len(),
                i <= n,
                names@ == self@.names().take(i as int),
            decreases n - i,
        {
            let name = self.sink.elem_name(&self.open_elems[i]);
            names.push(name);
            i += 1;
        }
        names
    }

    /// Runs one token to completion: applies the rule of the current phase
    /// and, as long as a rule hands the token on, moves to the phase named
    /// and applies that phase's rule, without taking new input. Once
    /// parsing has been ended, the token is reported and dropped.
    pub fn process_to_completion(&mut self, token: XToken)
        requires
            old(self)@.wf(),
        ensures
            final(self)@ == old(self)@.process_to_completion(
                token,
                issued_at(final(self)@.log, old(self)@.log.len() as int),
            ),
            final(self)@.wf(),
    {
        let ghost before = self@;
        let mut token = token;
        let ghost given = token;
        loop
            invariant_except_break
                token == given,
                self@ == before.in_phase(self@.phase),
                self@.settles_in(given) == before.settles_in(given),
            invariant
                self@.wf(),
            ensures
                self@ == before.process_to_completion(
                    given,
                    issued_at(self@.log, before.log.len() as int),
                ),
            decreases 2 - self@.phase.rank(),
        {
            let phase = self.phase;
            proof {
                lemma_settle(phase, given);
            }
            match self.step(phase, token) {
                XmlProcessResult::XDone => {
                    break ;
                },
                XmlProcessResult::XReprocess(next, again) => {
                    self.phase = next;
                    token = again;
                },
            }
        }
    }

    /// Takes one token from the tokenizer.
    ///
    /// A parse error is passed to the sink as a diagnostic. A document
    /// type declaration is refused: the builder stays as it is and the
    /// caller is told. Every other token is run to completion; once
    /// parsing has been ended, that is to report it to the sink and drop
    /// it.
    pub fn process_token(&mut self, token: tokenizer::XToken) -> (result: Result<(), Unsupported>)
        requires
            old(self)@.wf(),
        ensures
            final(self)@ == old(self)@.process_token(
                token,
                issued_at(final(self)@.log, old(self)@.log.len() as int),
            ),
            result == if token is DoctypeXToken {
                Err::<(), Unsupported>(Unsupported::Doctype)
            } else {
                Ok::<(), Unsupported>(())
            },
            token is DoctypeXToken ==> *final(self).sink() == *old(self).sink(),
            final(self)@.wf(),
    {
        let token = match token {
            tokenizer::XToken::XParseError(e) => {
                proof {
                    self@.lemma_told(SinkOp::ParseError { msg: e@ });
                }
                self.sink.parse_error(e);
                return Ok(());
            },
            tokenizer::XToken::DoctypeXToken(_) => {
                return Err(Unsupported::Doctype);
            },
            tokenizer::XToken::PIToken(x) => XToken::PIToken(x),
            tokenizer::XToken::XTagToken(x) => XToken::XTagToken(x),
            tokenizer::XToken::CommentXToken(x) => XToken::CommentXToken(x),
            tokenizer::XToken::NullCharacterXToken => XToken::NullCharacterXToken,
            tokenizer::XToken::EOFXToken => XToken::EOFXToken,
            tokenizer::XToken::CharacterXTokens(x) => XToken::CharacterXTokens(x),
        };
        self.process_to_completion(token);
        Ok(())
    }

    /// The lexical mode that the tokenizer is to enter, if the builder
    /// asked for one since this was last read. Reading takes the request
    /// away.
    pub fn query_state_change(&mut self) -> (state: Option<XmlState>)
        ensures
            state == old(self)@.next_tokenizer_state,
            final(self)@ == old(self)@.query_state_change(),
            *final(self).sink() == *old(self).sink(),
    {
        self.next_tokenizer_state.take()
    }

    /// Asks the tokenizer to enter `state` before it reads on. A request
    /// that was not read yet is replaced.
    pub fn set_next_tokenizer_state(&mut self, state: XmlState)
        ensures
            final(self)@ == old(self)@.set_next_tokenizer_state(state),
            *final(self).sink() == *old(self).sink(),
    {
        self.next_tokenizer_state = Some(state);
    }
}

} // verus!
