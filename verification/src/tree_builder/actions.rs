//! The primitive actions through which every change to the tree and to the
//! stack of open elements goes.

use crate::atoms::same_atom;
use crate::names::{resolved_name, QualName};
use crate::tendrils::Text;
use crate::tokenizer::{XPi, XTag};
use crate::tree_builder::interface::{
    is_element, issued_at, lemma_created_is_element, lemma_element_stays, name_of, NodeOrText,
    SinkOp, TreeSink,
};
use crate::tree_builder::model::{lemma_topmost, lemma_topmost_is, topmost, XmlTreeBuilderView};
use crate::tree_builder::types::XmlProcessResult;
use crate::tree_builder::XmlTreeBuilder;
use std::borrow::Cow;
use vstd::prelude::*;

verus! {

/// Whether `pred` accepts `name` whatever else it may do: no call of it on
/// `name` returns `false`.
pub open spec fn surely_accepts<TagSet: Fn(QualName) -> bool>(pred: TagSet, name: QualName) -> bool {
    forall|accepted: bool| call_ensures(pred, (name,), accepted) ==> accepted
}

/// The actions of a tree builder. Each is described by what it makes of
/// the builder's view.
pub trait XmlTreeBuilderActions<Handle>: View<V = XmlTreeBuilderView<Handle>> {
    /// The innermost open element.
    fn current_node(&self) -> (node: Handle)
        requires
            self@.open_elems.len() > 0,
        ensures
            node == self@.current_node(),
    ;

    /// Appends a node or a text run under the current node.
    fn insert_appropriately(&mut self, child: NodeOrText<Handle>)
        requires
            old(self)@.open_elems.len() > 0,
        ensures
            final(self)@ == old(self)@.insert_appropriately(child),
            old(self)@.wf() ==> final(self)@.wf(),
    ;

    /// Creates an element for `tag` under the current node and opens it:
    /// it is the current node from now on. The element is a new one and
    /// bears the name that the tag resolves to.
    fn insert_tag(&mut self, tag: XTag) -> (result: XmlProcessResult)
        requires
            old(self)@.open_elems.len() > 0,
        ensures
            result is XDone,
            final(self)@ == old(self)@.insert_tag(tag, final(self)@.current_node()),
            final(self)@.open_elems.len() == old(self)@.open_elems.len() + 1,
            !is_element(old(self)@.log, final(self)@.current_node()),
            name_of(final(self)@.log, final(self)@.current_node()) == resolved_name(tag.name),
            old(self)@.wf() ==> final(self)@.wf(),
    ;

    /// Creates an element for `tag` under the current node and leaves it
    /// closed. The element is a new one and bears the name that the tag
    /// resolves to.
    fn append_tag(&mut self, tag: XTag) -> (result: XmlProcessResult)
        requires
            old(self)@.open_elems.len() > 0,
        ensures
            result is XDone,
            final(self)@ == old(self)@.append_tag(
                tag,
                issued_at(final(self)@.log, old(self)@.log.len() as int),
            ),
            final(self)@.open_elems == old(self)@.open_elems,
            !is_element(
                old(self)@.log,
                issued_at(final(self)@.log, old(self)@.log.len() as int),
            ),
            name_of(
                final(self)@.log,
                issued_at(final(self)@.log, old(self)@.log.len() as int),
            ) == resolved_name(tag.name),
            old(self)@.wf() ==> final(self)@.wf(),
    ;

    /// Creates an element for `tag` directly under the document node,
    /// whatever is open, and returns its handle. The element is a new one
    /// and bears the name that the tag resolves to.
    fn append_tag_to_doc(&mut self, tag: XTag) -> (node: Handle)
        ensures
            final(self)@ == old(self)@.append_tag_to_doc(tag, node),
            !is_element(old(self)@.log, node),
            is_element(final(self)@.log, node),
            name_of(final(self)@.log, node) == resolved_name(tag.name),
            old(self)@.wf() ==> final(self)@.wf(),
    ;

    /// Opens `el`: it is the current node from now on.
    fn add_to_open_elems(&mut self, el: Handle) -> (result: XmlProcessResult)
        ensures
            result is XDone,
            final(self)@ == old(self)@.add_to_open_elems(el),
            old(self)@.wf() && is_element(old(self)@.log, el) ==> final(self)@.wf(),
    ;

    /// Creates a comment under the document node.
    fn append_comment_to_doc(&mut self, comment: Text) -> (result: XmlProcessResult)
        ensures
            result is XDone,
            final(self)@ == old(self)@.append_comment_to_doc(
                comment,
                issued_at(final(self)@.log, old(self)@.log.len() as int),
            ),
            old(self)@.wf() ==> final(self)@.wf(),
    ;

    /// Creates a comment under the current node.
    fn append_comment_to_tag(&mut self, text: Text) -> (result: XmlProcessResult)
        requires
            old(self)@.open_elems.len() > 0,
        ensures
            result is XDone,
            final(self)@ == old(self)@.append_comment_to_tag(
                text,
                issued_at(final(self)@.log, old(self)@.log.len() as int),
            ),
            old(self)@.wf() ==> final(self)@.wf(),
    ;

    /// Creates a processing instruction under the document node.
    fn append_pi_to_doc(&mut self, pi: XPi) -> (result: XmlProcessResult)
        ensures
            result is XDone,
            final(self)@ == old(self)@.append_pi_to_doc(
                pi,
                issued_at(final(self)@.log, old(self)@.log.len() as int),
            ),
            old(self)@.wf() ==> final(self)@.wf(),
    ;

    /// Creates a processing instruction under the current node.
    fn append_pi_to_tag(&mut self, pi: XPi) -> (result: XmlProcessResult)
        requires
            old(self)@.open_elems.len() > 0,
        ensures
            result is XDone,
            final(self)@ == old(self)@.append_pi_to_tag(
                pi,
                issued_at(final(self)@.log, old(self)@.log.len() as int),
            ),
            old(self)@.wf() ==> final(self)@.wf(),
    ;

    /// Appends a run of text under the current node.
    fn append_text(&mut self, chars: Text) -> (result: XmlProcessResult)
        requires
            old(self)@.open_elems.len() > 0,
        ensures
            result is XDone,
            final(self)@ == old(self)@.append_text(chars),
            old(self)@.wf() ==> final(self)@.wf(),
    ;

    /// Whether an open element bears the name that `tag` resolves to.
    fn tag_in_open_elems(&self, tag: &XTag) -> (found: bool)
        requires
            self@.wf(),
        ensures
            found == self@.tag_in_open_elems(*tag),
    ;

    /// Closes elements from the current node outwards until the current
    /// node is one whose name `pred` accepts. `pred` is asked of names of
    /// open elements only, and some open element must bear a name that
    /// `pred` is sure to accept. Whatever `pred` answers, the
    /// new current node is one it accepted and each closed element one it
    /// refused.
    fn pop_until<TagSet>(&mut self, pred: TagSet) where TagSet: Fn(QualName) -> bool
        requires
            old(self)@.wf(),
            forall|i: int|
                0 <= i < old(self)@.open_elems.len() ==> call_requires(
                    pred,
                    (#[trigger] old(self)@.names()[i],),
                ),
            exists|i: int|
                0 <= i < old(self)@.open_elems.len() && #[trigger] surely_accepts(
                    pred,
                    old(self)@.names()[i],
                ),
        ensures
            0 < final(self)@.open_elems.len() <= old(self)@.open_elems.len(),
            final(self)@ == old(self)@.cut(final(self)@.open_elems.len() as int),
            call_ensures(pred, (old(self)@.names()[final(self)@.open_elems.len() - 1],), true),
            forall|j: int|
                final(self)@.open_elems.len() <= j < old(self)@.open_elems.len() ==> call_ensures(
                    pred,
                    (#[trigger] old(self)@.names()[j],),
                    false,
                ),
            final(self)@.wf(),
    ;

    /// What `set` answers for the name of the current node.
    fn current_node_in<TagSet>(&self, set: TagSet) -> (accepted: bool) where
        TagSet: Fn(QualName) -> bool,

        requires
            self@.wf(),
            self@.open_elems.len() > 0,
            call_requires(set, (self@.names().last(),)),
        ensures
            call_ensures(set, (self@.names().last(),), accepted),
    ;

    /// Handles an end tag. Where the tag does not name the current node,
    /// the sink is told. Then the innermost open element of the tag's name
    /// is closed, with all that is open inside it; what is closed stays in
    /// the tree where it was appended. Where no open element bears the
    /// name, nothing is closed.
    fn close_tag(&mut self, tag: XTag) -> (result: XmlProcessResult)
        requires
            old(self)@.wf(),
            old(self)@.open_elems.len() > 0,
        ensures
            result is XDone,
            final(self)@ == old(self)@.close_tag(tag),
            final(self)@.wf(),
    ;

    /// Whether no element is open.
    fn no_open_elems(&self) -> (none: bool)
        ensures
            none == self@.no_open_elems(),
    ;

    /// Closes the current node and returns it.
    fn pop(&mut self) -> (node: Handle)
        requires
            old(self)@.open_elems.len() > 0,
        ensures
            node == old(self)@.current_node(),
            final(self)@ == old(self)@.pop(),
            old(self)@.wf() ==> final(self)@.wf(),
    ;

    /// Ends parsing: closes every element that is still open, and has the
    /// builder accept no token from now on. Doing so again changes
    /// nothing.
    fn stop_parsing(&mut self) -> (result: XmlProcessResult)
        ensures
            result is XDone,
            final(self)@ == old(self)@.stop_parsing(),
            final(self)@.no_open_elems(),
            final(self)@.stopped,
            final(self)@.wf(),
    ;
}

impl<Handle, Sink> XmlTreeBuilderActions<Handle> for XmlTreeBuilder<Handle, Sink> where
    Handle: Copy,
    Sink: TreeSink<Handle = Handle>,
 {
    fn current_node(&self) -> (node: Handle) {
        self.open_elems[self.open_elems.len() - 1]
    }

    fn insert_appropriately(&mut self, child: NodeOrText<Handle>) {
        let target = self.current_node();
        proof {
            if self@.wf() {
                self@.lemma_told(SinkOp::Append { parent: target, child });
            }
        }
        self.sink.append(target, child);
    }

    fn insert_tag(&mut self, tag: XTag) -> (result: XmlProcessResult) {
        let ghost before = self@;
        let child = self.sink.create_element(QualName::resolve(&tag.name), tag.attrs);
        proof {
            let made = SinkOp::CreateElement {
                name: resolved_name(tag.name),
                attrs: tag.attrs@,
                node: child,
            };
            lemma_created_is_element(before.log, resolved_name(tag.name), tag.attrs@, child);
            if before.wf() {
                before.lemma_told(made);
            }
        }
        self.insert_appropriately(NodeOrText::AppendNode(child));
        proof {
            lemma_element_stays(
                before.log.push(
                    SinkOp::CreateElement {
                        name: resolved_name(tag.name),
                        attrs: tag.attrs@,
                        node: child,
                    },
                ),
                SinkOp::Append {
                    parent: before.current_node(),
                    child: NodeOrText::AppendNode(child),
                },
                child,
            );
        }
        self.add_to_open_elems(child)
    }

    fn append_tag(&mut self, tag: XTag) -> (result: XmlProcessResult) {
        let ghost before = self@;
        let child = self.sink.create_element(QualName::resolve(&tag.name), tag.attrs);
        proof {
            let made = SinkOp::CreateElement {
                name: resolved_name(tag.name),
                attrs: tag.attrs@,
                node: child,
            };
            lemma_created_is_element(before.log, resolved_name(tag.name), tag.attrs@, child);
            lemma_element_stays(
                before.log.push(made),
                SinkOp::Append {
                    parent: before.current_node(),
                    child: NodeOrText::AppendNode(child),
                },
                child,
            );
            if before.wf() {
                before.lemma_told(made);
            }
        }
        self.insert_appropriately(NodeOrText::AppendNode(child));
        XmlProcessResult::XDone
    }

    fn append_tag_to_doc(&mut self, tag: XTag) -> (node: Handle) {
        let ghost before = self@;
        let root = self.doc_handle;
        let child = self.sink.create_element(QualName::resolve(&tag.name), tag.attrs);
        proof {
            let made = SinkOp::CreateElement {
                name: resolved_name(tag.name),
                attrs: tag.attrs@,
                node: child,
            };
            let hung = SinkOp::Append { parent: root, child: NodeOrText::AppendNode(child) };
            lemma_created_is_element(before.log, resolved_name(tag.name), tag.attrs@, child);
            lemma_element_stays(before.log.push(made), hung, child);
            if before.wf() {
                before.lemma_told_twice(made, hung);
            }
        }
        self.sink.append(root, NodeOrText::AppendNode(child));
        child
    }

    fn add_to_open_elems(&mut self, el: Handle) -> (result: XmlProcessResult)
        ensures
            *final(self).sink() == *old(self).sink(),
    {
        proof {
            if self@.wf() && is_element(self@.log, el) {
                self@.lemma_add_to_open_elems(el);
            }
        }
        self.open_elems.push(el);
        XmlProcessResult::XDone
    }

    fn append_comment_to_doc(&mut self, text: Text) -> (result: XmlProcessResult) {
        let ghost before = self@;
        let target = self.doc_handle;
        let comment = self.sink.create_comment(text);
        proof {
            if before.wf() {
                before.lemma_told_twice(
                    SinkOp::CreateComment { text, node: comment },
                    SinkOp::Append { parent: target, child: NodeOrText::AppendNode(comment) },
                );
            }
        }
        self.sink.append(target, NodeOrText::AppendNode(comment));
        XmlProcessResult::XDone
    }

    fn append_comment_to_tag(&mut self, text: Text) -> (result: XmlProcessResult) {
        let ghost before = self@;
        let target = self.current_node();
        let comment = self.sink.create_comment(text);
        proof {
            if before.wf() {
                before.lemma_told_twice(
                    SinkOp::CreateComment { text, node: comment },
                    SinkOp::Append { parent: target, child: NodeOrText::AppendNode(comment) },
                );
            }
        }
        self.sink.append(target, NodeOrText::AppendNode(comment));
        XmlProcessResult::XDone
    }

    fn append_pi_to_doc(&mut self, pi: XPi) -> (result: XmlProcessResult) {
        let ghost before = self@;
        let target = self.doc_handle;
        let node = self.sink.create_pi(pi.target, pi.data);
        proof {
            if before.wf() {
                before.lemma_told_twice(
                    SinkOp::CreatePi { target: pi.target, data: pi.data, node },
                    SinkOp::Append { parent: target, child: NodeOrText::AppendNode(node) },
                );
            }
        }
        self.sink.append(target, NodeOrText::AppendNode(node));
        XmlProcessResult::XDone
    }

    fn append_pi_to_tag(&mut self, pi: XPi) -> (result: XmlProcessResult) {
        let ghost before = self@;
        let target = self.current_node();
        let node = self.sink.create_pi(pi.target, pi.data);
        proof {
            if before.wf() {
                before.lemma_told_twice(
                    SinkOp::CreatePi { target: pi.target, data: pi.data, node },
                    SinkOp::Append { parent: target, child: NodeOrText::AppendNode(node) },
                );
            }
        }
        self.sink.append(target, NodeOrText::AppendNode(node));
        XmlProcessResult::XDone
    }

    fn append_text(&mut self, chars: Text) -> (result: XmlProcessResult) {
        self.insert_appropriately(NodeOrText::AppendText(chars));
        XmlProcessResult::XDone
    }

    fn tag_in_open_elems(&self, tag: &XTag) -> (found: bool) {
        let target = QualName::resolve(&tag.name);
        let n: usize = self.open_elems.len();
        let mut i: usize = 0;
        while i < n
            invariant
                self@.wf(),
                n == self.open_elems.len(),
                i <= n,
                target == resolved_name(tag.name),
                forall|j: int| 0 <= j < i ==> self@.names()[j] != target,
            decreases n - i,
        {
            assert(is_element(self@.log, self@.open_elems[i as int]));
            let name = self.sink.elem_name(&self.open_elems[i]);
            if name.same(&target) {
                assert(self@.names()[i as int] == target);
                return true;
            }
            i += 1;
        }
        false
    }

    fn pop_until<TagSet>(&mut self, pred: TagSet) where TagSet: Fn(QualName) -> bool
        ensures
            *final(self).sink() == *old(self).sink(),
    {
        let ghost before = self@;
        let ghost sure = choose|i: int|
            0 <= i < before.open_elems.len() && #[trigger] surely_accepts(pred, before.names()[i]);
        assert(before.open_elems.take(before.open_elems.len() as int) == before.open_elems);
        loop
            invariant_except_break
                sure < self.open_elems.len(),
            invariant
                before == old(self)@,
                before.wf(),
                0 <= sure < before.open_elems.len(),
                surely_accepts(pred, before.names()[sure]),
                forall|i: int|
                    0 <= i < before.open_elems.len() ==> call_requires(
                        pred,
                        (#[trigger] before.names()[i],),
                    ),
                0 < self.open_elems.len() <= before.open_elems.len(),
                self@ == before.cut(self.open_elems.len() as int),
                *self.sink() == *old(self).sink(),
                forall|j: int|
                    self.open_elems.len() <= j < before.open_elems.len() ==> call_ensures(
                        pred,
                        (#[trigger] before.names()[j],),
                        false,
                    ),
            ensures
                call_ensures(pred, (before.names()[self.open_elems.len() - 1],), true),
            decreases self.open_elems.len(),
        {
            proof {
                before.lemma_cut(self.open_elems.len() as int);
            }
            let asked = &pred;
            let ask = |name: QualName| -> (accepted: bool)
                requires
                    call_requires(asked, (name,)),
                ensures
                    call_ensures(asked, (name,), accepted),
            { asked(name) };
            let accepted = self.current_node_in(ask);
            if accepted {
                break ;
            }
            assert(sure != self.open_elems.len() - 1);
            self.open_elems.pop();
            assert(self@.open_elems == before.open_elems.take(self.open_elems.len() as int));
        }
        proof {
            before.lemma_cut(self.open_elems.len() as int);
        }
    }

    fn current_node_in<TagSet>(&self, set: TagSet) -> (accepted: bool) where
        TagSet: Fn(QualName) -> bool,
     {
        set(self.sink.elem_name(&self.open_elems[self.open_elems.len() - 1]))
    }

    fn close_tag(&mut self, tag: XTag) -> (result: XmlProcessResult) {
        let ghost before = self@;
        let ghost target = resolved_name(tag.name);
        let current = self.sink.elem_name(&self.open_elems[self.open_elems.len() - 1]);
        if !same_atom(&current.local, &tag.name) {
            proof {
                before.lemma_told(SinkOp::ParseError { msg: "Current node doesn't match tag"@ });
            }
            self.sink.parse_error(Cow::Borrowed("Current node doesn't match tag"));
        }
        let ghost noted = self@;
        assert(noted.names() == before.names());
        let is_closed = self.tag_in_open_elems(&tag);
        if is_closed {
            let wanted = QualName::resolve(&tag.name);
            let sought = &wanted;
            let is_wanted = |name: QualName| -> (same: bool)
                ensures
                    same == (name == *sought),
            { name.same(sought) };
            proof {
                lemma_topmost(before.names(), target);
                let at = topmost(before.names(), target);
                assert(surely_accepts(is_wanted, noted.names()[at]));
            }
            self.pop_until(is_wanted);
            proof {
                lemma_topmost_is(before.names(), target, self.open_elems.len() - 1);
            }
            let _ = self.pop();
            assert(self@.open_elems == before.open_elems.take(topmost(before.names(), target)));
        }
        XmlProcessResult::XDone
    }

    fn no_open_elems(&self) -> (none: bool) {
        self.open_elems.len() == 0
    }

    fn pop(&mut self) -> (node: Handle)
        ensures
            *final(self).sink() == *old(self).sink(),
    {
        proof {
            if self@.wf() {
                self@.lemma_cut(self.open_elems.len() - 1);
            }
        }
        let node = self.open_elems.pop();
        assert(self.open_elems@ == old(self).open_elems@.take(old(self).open_elems.len() - 1));
        node.unwrap()
    }

    fn stop_parsing(&mut self) -> (result: XmlProcessResult)
        ensures
            *final(self).sink() == *old(self).sink(),
    {
        self.open_elems.clear();
        self.stopped = true;
        assert(self.open_elems@ == old(self).open_elems@.take(0));
        XmlProcessResult::XDone
    }
}

} // verus!
