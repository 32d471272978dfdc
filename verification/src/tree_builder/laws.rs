//! What holds of the builder whatever the tokens and whatever the sink
//! answers.

use crate::names::resolved_name;
use crate::tokenizer;
use crate::tokenizer::states::XmlState;
use crate::tokenizer::{XTag, XTagKind};
use crate::tree_builder::interface::{
    is_element, issued_at, lemma_created_at, lemma_created_is_element, lemma_element_stays,
    lemma_element_stays_on, NodeOrText, SinkOp,
};
use crate::tree_builder::model::{
    lemma_topmost, lemma_topmost_is, mismatch_message, XmlTreeBuilderView,
};
use crate::tree_builder::rule_token;
use crate::tree_builder::rules::lemma_settle;
use crate::tree_builder::types::{XToken, XmlPhase};
use vstd::prelude::*;

verus! {

/// Whether a token is a start tag.
pub open spec fn is_start_tag(token: tokenizer::XToken) -> bool {
    match token {
        tokenizer::XToken::XTagToken(tag) => tag.kind == XTagKind::StartXTag,
        _ => false,
    }
}

/// How many start tags `tokens` holds.
pub open spec fn start_tags(tokens: Seq<tokenizer::XToken>) -> nat
    decreases tokens.len(),
{
    if tokens.len() == 0 {
        0
    } else if is_start_tag(tokens.last()) {
        start_tags(tokens.drop_last()) + 1
    } else {
        start_tags(tokens.drop_last())
    }
}

/// The commands of a record that change the tree: all but the
/// diagnostics.
pub open spec fn tree_record<Handle>(log: Seq<SinkOp<Handle>>) -> Seq<SinkOp<Handle>>
    decreases log.len(),
{
    if log.len() == 0 {
        Seq::empty()
    } else if log.last() is ParseError {
        tree_record(log.drop_last())
    } else {
        tree_record(log.drop_last()).push(log.last())
    }
}

/// Whether the rule of `phase` opens an element for `token`.
pub open spec fn opens_element(phase: XmlPhase, token: XToken) -> bool {
    phase == XmlPhase::MainPhase && match token {
        XToken::XTagToken(tag) => tag.kind == XTagKind::StartXTag,
        _ => false,
    }
}

impl<Handle> XmlTreeBuilderView<Handle> {
    /// How many open elements a token closes: by how much the stack is
    /// shorter once the token has been processed.
    pub open spec fn closed_by(self, token: tokenizer::XToken, node: Handle) -> nat {
        let depth = self.process_token(token, node).open_elems.len();
        if depth < self.open_elems.len() {
            (self.open_elems.len() - depth) as nat
        } else {
            0
        }
    }

    /// The builder after `tokens`, one after the other, where the sink
    /// answers `nodes[i]` if `tokens[i]` makes it create a node.
    pub open spec fn run(self, tokens: Seq<tokenizer::XToken>, nodes: Seq<Handle>) -> Self
        recommends
            nodes.len() == tokens.len(),
        decreases tokens.len(),
    {
        if tokens.len() == 0 {
            self
        } else {
            self.run(tokens.drop_last(), nodes.drop_last()).process_token(
                tokens.last(),
                nodes.last(),
            )
        }
    }

    /// How many open elements `tokens` close in all.
    pub open spec fn closed_in_run(self, tokens: Seq<tokenizer::XToken>, nodes: Seq<Handle>) -> nat
        recommends
            nodes.len() == tokens.len(),
        decreases tokens.len(),
    {
        if tokens.len() == 0 {
            0
        } else {
            self.closed_in_run(tokens.drop_last(), nodes.drop_last()) + self.run(
                tokens.drop_last(),
                nodes.drop_last(),
            ).closed_by(tokens.last(), nodes.last())
        }
    }

    /// The builder after the request for a lexical mode has been read
    /// `reads` times in a row.
    pub open spec fn read_state_change(self, reads: nat) -> Self
        decreases reads,
    {
        if reads == 0 {
            self
        } else {
            self.read_state_change((reads - 1) as nat).query_state_change()
        }
    }

    /// The stack grows by insertion only and shrinks by closing only: a
    /// rule that opens an element adds the node that the sink has just
    /// created, as the current node; any other rule leaves the outermost
    /// elements open and closes the rest, if it closes any.
    pub proof fn lemma_step_stack(self, phase: XmlPhase, token: XToken, node: Handle)
        ensures
            !self.stopped && opens_element(phase, token) ==> self.step(
                phase,
                token,
                node,
            ).open_elems == self.open_elems.push(node) && is_element(
                self.step(phase, token, node).log,
                node,
            ),
            self.stopped || !opens_element(phase, token) ==> self.step(
                phase,
                token,
                node,
            ).open_elems.len()
                <= self.open_elems.len() && self.step(phase, token, node).open_elems
                == self.open_elems.take(self.step(phase, token, node).open_elems.len() as int),
    {
        let after = self.step(phase, token, node);
        assert(self.open_elems.take(self.open_elems.len() as int) == self.open_elems);
        if phase == XmlPhase::MainPhase && !self.stopped {
            match token {
                XToken::XTagToken(tag) => {
                    if tag.kind == XTagKind::EndXTag && !self.no_open_elems() {
                        lemma_topmost(self.names(), resolved_name(tag.name));
                    }
                    if tag.kind == XTagKind::StartXTag {
                        assert(after.log[self.log.len() as int] is CreateElement);
                        assert(issued_at(after.log, self.log.len() as int) == node);
                        lemma_created_at(after.log, self.log.len() as int);
                    }
                },
                _ => {},
            }
        }
    }

    /// A rule only adds to the sink's record, and it changes neither the
    /// document node, nor the phase, nor the request for a lexical mode.
    /// Parsing that has been ended stays ended.
    pub proof fn lemma_step_keeps(self, phase: XmlPhase, token: XToken, node: Handle)
        ensures
            self.log.is_prefix_of(self.step(phase, token, node).log),
            self.step(phase, token, node).doc == self.doc,
            self.step(phase, token, node).phase == self.phase,
            self.step(phase, token, node).next_tokenizer_state == self.next_tokenizer_state,
            self.stopped ==> self.step(phase, token, node).stopped,
    {
    }

    /// A rule keeps every open element one that the sink created.
    pub proof fn lemma_step_wf(self, phase: XmlPhase, token: XToken, node: Handle)
        requires
            self.wf(),
        ensures
            self.step(phase, token, node).wf(),
    {
        let after = self.step(phase, token, node);
        self.lemma_step_stack(phase, token, node);
        self.lemma_step_keeps(phase, token, node);
        assert forall|i: int| 0 <= i < after.open_elems.len() implies is_element(
            after.log,
            #[trigger] after.open_elems[i],
        ) by {
            if i < self.open_elems.len() {
                assert(after.open_elems[i] == self.open_elems[i]);
                lemma_element_stays_on(self.log, after.log, self.open_elems[i]);
            }
        }
    }

    /// A token changes neither the document node nor the request for a
    /// lexical mode, never moves the builder to an earlier phase, only
    /// adds to the sink's record, and keeps every open element one that
    /// the sink created.
    pub proof fn lemma_process_token_keeps(self, token: tokenizer::XToken, node: Handle)
        requires
            self.wf(),
        ensures
            self.process_token(token, node).doc == self.doc,
            self.process_token(token, node).next_tokenizer_state == self.next_tokenizer_state,
            self.process_token(token, node).phase.rank() >= self.phase.rank(),
            self.stopped ==> self.process_token(token, node).stopped,
            self.log.is_prefix_of(self.process_token(token, node).log),
            self.process_token(token, node).wf(),
    {
        match token {
            tokenizer::XToken::XParseError(msg) => {
                self.lemma_told(SinkOp::ParseError { msg: msg@ });
            },
            tokenizer::XToken::DoctypeXToken(doctype) => {},
            _ => {
                let given = rule_token(token)->0;
                let phase = self.settles_in(given);
                lemma_settle(self.phase, given);
                self.in_phase(phase).lemma_step_keeps(phase, given, node);
                self.in_phase(phase).lemma_step_wf(phase, given, node);
            },
        }
    }

    /// A token makes the stack of open elements deeper by one at most,
    /// and only a start tag does: the depth after it, with what it
    /// closed, is no more than the depth before it, with one for a start
    /// tag.
    pub proof fn lemma_process_token_depth(self, token: tokenizer::XToken, node: Handle)
        ensures
            self.process_token(token, node).open_elems.len() + self.closed_by(token, node)
                <= self.open_elems.len() + if is_start_tag(token) {
                1nat
            } else {
                0nat
            },
    {
        match token {
            tokenizer::XToken::XParseError(msg) => {},
            tokenizer::XToken::DoctypeXToken(doctype) => {},
            _ => {
                let given = rule_token(token)->0;
                let phase = self.settles_in(given);
                lemma_settle(self.phase, given);
                self.in_phase(phase).lemma_step_stack(phase, given, node);
            },
        }
    }

    /// For any sequence of tokens: the depth of the stack is at most the
    /// depth at the outset, plus the number of start tags seen, less the
    /// number of elements closed; and every open element is one that the
    /// sink created.
    pub proof fn lemma_depth_bounded(self, tokens: Seq<tokenizer::XToken>, nodes: Seq<Handle>)
        requires
            self.wf(),
            nodes.len() == tokens.len(),
        ensures
            self.run(tokens, nodes).open_elems.len() + self.closed_in_run(tokens, nodes)
                <= self.open_elems.len() + start_tags(tokens),
            self.run(tokens, nodes).wf(),
            self.run(tokens, nodes).doc == self.doc,
        decreases tokens.len(),
    {
        if tokens.len() > 0 {
            self.lemma_depth_bounded(tokens.drop_last(), nodes.drop_last());
            let so_far = self.run(tokens.drop_last(), nodes.drop_last());
            so_far.lemma_process_token_depth(tokens.last(), nodes.last());
            so_far.lemma_process_token_keeps(tokens.last(), nodes.last());
        }
    }

    /// An element that has just been opened for a start tag is closed
    /// again by an end tag of the same name, and by nothing more: the
    /// stack is as it was before the start tag, and the sink hears no
    /// diagnostic.
    pub proof fn lemma_insert_then_close(self, tag: XTag, end: XTag, node: Handle)
        requires
            self.wf(),
            self.open_elems.len() > 0,
            !is_element(self.log, node),
            end.name == tag.name,
        ensures
            self.insert_tag(tag, node).names() == self.names().push(resolved_name(tag.name)),
            self.insert_tag(tag, node).close_tag(end).open_elems == self.open_elems,
            self.insert_tag(tag, node).close_tag(end).log == self.insert_tag(tag, node).log,
    {
        let made = SinkOp::CreateElement {
            name: resolved_name(tag.name),
            attrs: tag.attrs@,
            node,
        };
        let hung = SinkOp::Append {
            parent: self.current_node(),
            child: NodeOrText::AppendNode(node),
        };
        let inside = self.insert_tag(tag, node);
        self.lemma_told_twice(made, hung);
        lemma_created_is_element(self.log, resolved_name(tag.name), tag.attrs@, node);
        lemma_element_stays(self.log.push(made), hung, node);
        self.told(made).told(hung).lemma_add_to_open_elems(node);
        lemma_topmost_is(inside.names(), resolved_name(end.name), self.open_elems.len() as int);
        assert(inside.names().contains(resolved_name(end.name)));
        assert(inside.open_elems.take(self.open_elems.len() as int) == self.open_elems);
    }

    /// An end tag touches the tree in no case: whatever it closes stays
    /// where it was appended.
    pub proof fn lemma_close_tag_keeps_tree(self, tag: XTag)
        ensures
            tree_record(self.close_tag(tag).log) == tree_record(self.log),
            self.close_tag(tag).doc == self.doc,
            self.close_tag(tag).phase == self.phase,
            self.close_tag(tag).next_tokenizer_state == self.next_tokenizer_state,
    {
        let noted = self.log.push(SinkOp::ParseError { msg: mismatch_message() });
        assert(noted.drop_last() == self.log);
    }

    /// An end tag for a name that no open element bears changes neither
    /// the stack nor the tree.
    pub proof fn lemma_close_tag_unmatched(self, tag: XTag)
        requires
            !self.tag_in_open_elems(tag),
        ensures
            self.close_tag(tag).open_elems == self.open_elems,
            tree_record(self.close_tag(tag).log) == tree_record(self.log),
    {
        self.lemma_close_tag_keeps_tree(tag);
    }

    /// An end tag given a second time, once its name is closed: where the
    /// first one left something open and nothing of that name, the second
    /// one changes neither the stack nor the tree.
    pub proof fn lemma_close_tag_twice(self, tag: XTag)
        requires
            self.open_elems.len() > 0,
            self.close_tag(tag).open_elems.len() > 0,
            !self.close_tag(tag).tag_in_open_elems(tag),
        ensures
            self.close_tag(tag).close_tag(tag).open_elems == self.close_tag(tag).open_elems,
            tree_record(self.close_tag(tag).close_tag(tag).log) == tree_record(
                self.close_tag(tag).log,
            ),
    {
        self.close_tag(tag).lemma_close_tag_unmatched(tag);
    }

    /// Once parsing has been ended, no token is accepted: whatever the
    /// token, the stack stays as it is, the tree is not touched, and
    /// parsing stays ended. At most a diagnostic goes to the sink.
    pub proof fn lemma_stopped_accepts_nothing(self, token: tokenizer::XToken, node: Handle)
        requires
            self.stopped,
        ensures
            self.process_token(token, node).open_elems == self.open_elems,
            tree_record(self.process_token(token, node).log) == tree_record(self.log),
            self.process_token(token, node).stopped,
            self.process_token(token, node).phase == self.phase,
            self.process_token(token, node).doc == self.doc,
            self.process_token(token, node).next_tokenizer_state == self.next_tokenizer_state,
    {
        let after = self.process_token(token, node);
        if after.log != self.log {
            assert(after.log.drop_last() == self.log);
        }
    }

    /// The same, for any sequence of tokens.
    pub proof fn lemma_stopped_accepts_no_run(
        self,
        tokens: Seq<tokenizer::XToken>,
        nodes: Seq<Handle>,
    )
        requires
            self.stopped,
            nodes.len() == tokens.len(),
        ensures
            self.run(tokens, nodes).open_elems == self.open_elems,
            tree_record(self.run(tokens, nodes).log) == tree_record(self.log),
            self.run(tokens, nodes).stopped,
        decreases tokens.len(),
    {
        if tokens.len() > 0 {
            self.lemma_stopped_accepts_no_run(tokens.drop_last(), nodes.drop_last());
            self.run(tokens.drop_last(), nodes.drop_last()).lemma_stopped_accepts_nothing(
                tokens.last(),
                nodes.last(),
            );
        }
    }

    /// After `stop_parsing`, whatever token comes: nothing is open, and
    /// the tree is as `stop_parsing` found it.
    pub proof fn lemma_stop_parsing_is_final(self, token: tokenizer::XToken, node: Handle)
        ensures
            self.stop_parsing().process_token(token, node).no_open_elems(),
            tree_record(self.stop_parsing().process_token(token, node).log) == tree_record(
                self.log,
            ),
            self.stop_parsing().process_token(token, node).stopped,
    {
        self.stop_parsing().lemma_stopped_accepts_nothing(token, node);
    }

    /// Ending the parse twice is the same as ending it once.
    pub proof fn lemma_stop_parsing_twice(self)
        ensures
            self.stop_parsing().stop_parsing() == self.stop_parsing(),
            self.stop_parsing().no_open_elems(),
    {
        assert(self.stop_parsing().open_elems.take(0) == self.stop_parsing().open_elems);
    }

    /// The request for a lexical mode is read once: however often it is
    /// read after that, nothing comes back, and nothing else changes,
    /// until a new request is made.
    pub proof fn lemma_state_change_read_once(self, reads: nat, state: XmlState)
        requires
            reads >= 1,
        ensures
            self.read_state_change(reads).next_tokenizer_state is None,
            self.read_state_change(reads) == self.query_state_change(),
            self.read_state_change(reads).set_next_tokenizer_state(state).next_tokenizer_state
                == Some(state),
        decreases reads,
    {
        if reads > 1 {
            self.lemma_state_change_read_once((reads - 1) as nat, state);
        } else {
            assert(self.read_state_change(0) == self);
        }
    }
}

} // verus!
