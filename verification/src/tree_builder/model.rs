//! What a builder is, seen from outside, and what each action makes of it.
//!
//! A sink chooses the handles it issues, so an action that creates a node
//! is described for each handle that the sink may answer: the view after
//! the action is a function of the view before it, of the action's
//! arguments and of that handle.

use crate::names::{resolved_name, QualName};
use crate::tendrils::Text;
use crate::tokenizer::states::XmlState;
use crate::tokenizer::{XPi, XTag};
use crate::tree_builder::interface::{
    is_element, lemma_element_stays, lemma_element_stays_on, name_of, NodeOrText, SinkOp,
};
use crate::tree_builder::types::XmlPhase;
use vstd::prelude::*;

verus! {

/// A builder as its contracts speak of it.
pub struct XmlTreeBuilderView<Handle> {
    /// The document node.
    pub doc: Handle,
    /// The elements that are open, outermost first. The last one is the
    /// current node.
    pub open_elems: Seq<Handle>,
    /// The phase in which the next token is read.
    pub phase: XmlPhase,
    /// The lexical mode that the tokenizer is to enter next, until it is
    /// read.
    pub next_tokenizer_state: Option<XmlState>,
    /// Whether parsing has been ended. From then on no token is
    /// accepted.
    pub stopped: bool,
    /// The record of the builder's sink.
    pub log: Seq<SinkOp<Handle>>,
}

/// The diagnostic for an end tag that does not name the current node.
pub open spec fn mismatch_message() -> Seq<char> {
    "Current node doesn't match tag"@
}

/// The position of the last entry of `names` that equals `target`, or -1
/// where there is none.
pub open spec fn topmost(names: Seq<QualName>, target: QualName) -> int
    decreases names.len(),
{
    if names.len() == 0 {
        -1
    } else if names.last() == target {
        names.len() - 1
    } else {
        topmost(names.drop_last(), target)
    }
}

impl<Handle> XmlTreeBuilderView<Handle> {
    /// Every open element is one that the sink created as an element.
    pub open spec fn wf(self) -> bool {
        forall|i: int|
            0 <= i < self.open_elems.len() ==> is_element(self.log, #[trigger] self.open_elems[i])
    }

    /// The names of the open elements, outermost first.
    pub open spec fn names(self) -> Seq<QualName> {
        self.open_elems.map_values(|node: Handle| name_of(self.log, node))
    }

    /// The innermost open element.
    pub open spec fn current_node(self) -> Handle
        recommends
            self.open_elems.len() > 0,
    {
        self.open_elems.last()
    }

    /// Whether no element is open.
    pub open spec fn no_open_elems(self) -> bool {
        self.open_elems.len() == 0
    }

    /// Whether an open element bears the name that `tag` resolves to.
    pub open spec fn tag_in_open_elems(self, tag: XTag) -> bool {
        self.names().contains(resolved_name(tag.name))
    }

    /// The same builder once its sink has carried out `op`.
    pub open spec fn told(self, op: SinkOp<Handle>) -> Self {
        XmlTreeBuilderView { log: self.log.push(op), ..self }
    }

    /// The same builder in another phase.
    pub open spec fn in_phase(self, phase: XmlPhase) -> Self {
        XmlTreeBuilderView { phase, ..self }
    }

    /// The same builder with only its `depth` outermost elements open.
    pub open spec fn cut(self, depth: int) -> Self {
        XmlTreeBuilderView { open_elems: self.open_elems.take(depth), ..self }
    }

    /// `child` appended under the current node.
    pub open spec fn insert_appropriately(self, child: NodeOrText<Handle>) -> Self {
        self.told(SinkOp::Append { parent: self.current_node(), child })
    }

    /// `el` opened: it is the current node.
    pub open spec fn add_to_open_elems(self, el: Handle) -> Self {
        XmlTreeBuilderView { open_elems: self.open_elems.push(el), ..self }
    }

    /// An element created for `tag`, appended under the current node and
    /// opened.
    pub open spec fn insert_tag(self, tag: XTag, node: Handle) -> Self {
        self.told(
            SinkOp::CreateElement { name: resolved_name(tag.name), attrs: tag.attrs@, node },
        ).insert_appropriately(NodeOrText::AppendNode(node)).add_to_open_elems(node)
    }

    /// An element created for `tag` and appended under the current node.
    pub open spec fn append_tag(self, tag: XTag, node: Handle) -> Self {
        self.told(
            SinkOp::CreateElement { name: resolved_name(tag.name), attrs: tag.attrs@, node },
        ).insert_appropriately(NodeOrText::AppendNode(node))
    }

    /// An element created for `tag` and appended under the document node.
    pub open spec fn append_tag_to_doc(self, tag: XTag, node: Handle) -> Self {
        self.told(
            SinkOp::CreateElement { name: resolved_name(tag.name), attrs: tag.attrs@, node },
        ).told(SinkOp::Append { parent: self.doc, child: NodeOrText::AppendNode(node) })
    }

    /// A comment created and appended under the document node.
    pub open spec fn append_comment_to_doc(self, text: Text, node: Handle) -> Self {
        self.told(SinkOp::CreateComment { text, node }).told(
            SinkOp::Append { parent: self.doc, child: NodeOrText::AppendNode(node) },
        )
    }

    /// A comment created and appended under the current node.
    pub open spec fn append_comment_to_tag(self, text: Text, node: Handle) -> Self {
        self.told(SinkOp::CreateComment { text, node }).insert_appropriately(
            NodeOrText::AppendNode(node),
        )
    }

    /// A processing instruction created and appended under the document
    /// node.
    pub open spec fn append_pi_to_doc(self, pi: XPi, node: Handle) -> Self {
        self.told(SinkOp::CreatePi { target: pi.target, data: pi.data, node }).told(
            SinkOp::Append { parent: self.doc, child: NodeOrText::AppendNode(node) },
        )
    }

    /// A processing instruction created and appended under the current
    /// node.
    pub open spec fn append_pi_to_tag(self, pi: XPi, node: Handle) -> Self {
        self.told(
            SinkOp::CreatePi { target: pi.target, data: pi.data, node },
        ).insert_appropriately(NodeOrText::AppendNode(node))
    }

    /// A run of text appended under the current node.
    pub open spec fn append_text(self, chars: Text) -> Self {
        self.insert_appropriately(NodeOrText::AppendText(chars))
    }

    /// The current node closed.
    pub open spec fn pop(self) -> Self
        recommends
            self.open_elems.len() > 0,
    {
        self.cut(self.open_elems.len() - 1)
    }

    /// An end tag. A diagnostic goes to the sink where the tag does not
    /// name the current node. Where an open element bears the tag's name,
    /// the innermost such element is closed, with all that is open inside
    /// it; where none does, nothing is closed.
    pub open spec fn close_tag(self, tag: XTag) -> Self
        recommends
            self.open_elems.len() > 0,
    {
        let noted = if self.names().last().local != tag.name {
            self.told(SinkOp::ParseError { msg: mismatch_message() })
        } else {
            self
        };
        if self.tag_in_open_elems(tag) {
            noted.cut(topmost(self.names(), resolved_name(tag.name)))
        } else {
            noted
        }
    }

    /// The end of parsing: whatever is still open is closed, and the
    /// builder accepts no token from now on.
    pub open spec fn stop_parsing(self) -> Self {
        XmlTreeBuilderView { stopped: true, ..self.cut(0) }
    }
}

/// Where `target` occurs in `names`, `topmost` is the position of its last
/// occurrence; where it does not occur, `topmost` is -1.
pub proof fn lemma_topmost(names: Seq<QualName>, target: QualName)
    ensures
        -1 <= topmost(names, target) < names.len(),
        topmost(names, target) >= 0 <==> names.contains(target),
        topmost(names, target) >= 0 ==> names[topmost(names, target)] == target,
        forall|j: int| topmost(names, target) < j < names.len() ==> names[j] != target,
    decreases names.len(),
{
    if names.len() > 0 {
        let rest = names.drop_last();
        lemma_topmost(rest, target);
        if names.last() == target {
            assert(names[names.len() - 1] == target);
        } else {
            if names.contains(target) {
                let i = choose|i: int| 0 <= i < names.len() && names[i] == target;
                assert(rest[i] == target);
            }
            if rest.contains(target) {
                let i = choose|i: int| 0 <= i < rest.len() && rest[i] == target;
                assert(names[i] == target);
            }
            assert forall|j: int| topmost(names, target) < j < names.len() implies names[j]
                != target by {
                if j < rest.len() {
                    assert(rest[j] != target);
                }
            }
        }
    }
}

/// The one position that holds `target` with no `target` after it is
/// `topmost`.
pub proof fn lemma_topmost_is(names: Seq<QualName>, target: QualName, at: int)
    requires
        0 <= at < names.len(),
        names[at] == target,
        forall|j: int| at < j < names.len() ==> names[j] != target,
    ensures
        topmost(names, target) == at,
{
    lemma_topmost(names, target);
    assert(names.contains(target));
}

impl<Handle> XmlTreeBuilderView<Handle> {
    /// Whatever the sink is told, the open elements stay elements and keep
    /// their names.
    pub proof fn lemma_told(self, op: SinkOp<Handle>)
        requires
            self.wf(),
        ensures
            self.told(op).wf(),
            self.told(op).names() == self.names(),
    {
        assert forall|i: int| 0 <= i < self.open_elems.len() implies is_element(
            self.told(op).log,
            #[trigger] self.open_elems[i],
        ) && name_of(self.told(op).log, self.open_elems[i]) == name_of(
            self.log,
            self.open_elems[i],
        ) by {
            lemma_element_stays(self.log, op, self.open_elems[i]);
        }
        assert(self.told(op).names() =~= self.names());
    }

    /// The same, for two commands in a row.
    pub proof fn lemma_told_twice(self, first: SinkOp<Handle>, second: SinkOp<Handle>)
        requires
            self.wf(),
        ensures
            self.told(first).told(second).wf(),
            self.told(first).told(second).names() == self.names(),
    {
        self.lemma_told(first);
        self.told(first).lemma_told(second);
    }

    /// However the record of the sink goes on, the open elements stay
    /// elements and keep their names: a caller may give the sink commands
    /// of its own between two tokens.
    pub proof fn lemma_told_on(self, later: Seq<SinkOp<Handle>>)
        requires
            self.wf(),
            self.log.is_prefix_of(later),
        ensures
            (XmlTreeBuilderView { log: later, ..self }).wf(),
            (XmlTreeBuilderView { log: later, ..self }).names() == self.names(),
    {
        let after = XmlTreeBuilderView { log: later, ..self };
        assert forall|i: int| 0 <= i < self.open_elems.len() implies is_element(
            later,
            #[trigger] self.open_elems[i],
        ) && name_of(later, self.open_elems[i]) == name_of(self.log, self.open_elems[i]) by {
            lemma_element_stays_on(self.log, later, self.open_elems[i]);
        }
        assert(after.names() =~= self.names());
    }

    /// Closing elements leaves the others as they were.
    pub proof fn lemma_cut(self, depth: int)
        requires
            self.wf(),
            0 <= depth <= self.open_elems.len(),
        ensures
            self.cut(depth).wf(),
            self.cut(depth).names() == self.names().take(depth),
    {
        assert(self.cut(depth).names() =~= self.names().take(depth));
    }

    /// An element of the sink may be opened.
    pub proof fn lemma_add_to_open_elems(self, el: Handle)
        requires
            self.wf(),
            is_element(self.log, el),
        ensures
            self.add_to_open_elems(el).wf(),
            self.add_to_open_elems(el).names() == self.names().push(name_of(self.log, el)),
    {
        assert(self.add_to_open_elems(el).names() =~= self.names().push(name_of(self.log, el)));
    }
}

} // verus!
