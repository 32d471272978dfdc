//! What the builder asks of the collaborator that owns the tree.
//!
//! A sink issues handles and carries out commands. The builder never looks
//! at a node: it knows a sink only by the record of what the sink was asked
//! to do and which handles it gave back.

use crate::names::QualName;
use crate::tendrils::Text;
use crate::tokenizer::Attribute;
use std::borrow::Cow;
use vstd::prelude::*;

verus! {

/// Something to append under a node: another node, or a run of text.
#[derive(Debug, PartialEq, Eq)]
pub enum NodeOrText<Handle> {
    AppendNode(Handle),
    AppendText(Text),
}

/// One entry of a sink's record: a command, with the handle that the sink
/// answered where it answers one.
pub enum SinkOp<Handle> {
    GetDocument { node: Handle },
    CreateElement { name: QualName, attrs: Seq<Attribute>, node: Handle },
    CreateComment { text: Text, node: Handle },
    CreatePi { target: Text, data: Text, node: Handle },
    Append { parent: Handle, child: NodeOrText<Handle> },
    ParseError { msg: Seq<char> },
}

/// The name under which `node` was first created as an element in `log`,
/// if it was.
pub open spec fn creation_name<Handle>(log: Seq<SinkOp<Handle>>, node: Handle) -> Option<QualName>
    decreases log.len(),
{
    if log.len() == 0 {
        None
    } else {
        match creation_name(log.drop_last(), node) {
            Some(name) => Some(name),
            None => match log.last() {
                SinkOp::CreateElement { name, attrs, node: made } => if made == node {
                    Some(name)
                } else {
                    None
                },
                _ => None,
            },
        }
    }
}

/// Whether `node` is an element that the sink of this record created.
pub open spec fn is_element<Handle>(log: Seq<SinkOp<Handle>>, node: Handle) -> bool {
    creation_name(log, node) is Some
}

/// The qualified name of the element `node`.
pub open spec fn name_of<Handle>(log: Seq<SinkOp<Handle>>, node: Handle) -> QualName
    recommends
        is_element(log, node),
{
    creation_name(log, node)->0
}

/// The handle that the sink answered at entry `at` of its record, where
/// that entry is one that answers a handle.
pub open spec fn issued_at<Handle>(log: Seq<SinkOp<Handle>>, at: int) -> Handle
    recommends
        0 <= at < log.len(),
{
    match log[at] {
        SinkOp::GetDocument { node } => node,
        SinkOp::CreateElement { name, attrs, node } => node,
        SinkOp::CreateComment { text, node } => node,
        SinkOp::CreatePi { target, data, node } => node,
        _ => arbitrary(),
    }
}

/// An element stays an element, under the same name, whatever the sink is
/// asked next.
pub proof fn lemma_element_stays<Handle>(log: Seq<SinkOp<Handle>>, op: SinkOp<Handle>, node: Handle)
    requires
        is_element(log, node),
    ensures
        is_element(log.push(op), node),
        name_of(log.push(op), node) == name_of(log, node),
{
    assert(log.push(op).drop_last() == log);
}

/// An element stays an element, under the same name, however the record
/// goes on.
pub proof fn lemma_element_stays_on<Handle>(
    log: Seq<SinkOp<Handle>>,
    later: Seq<SinkOp<Handle>>,
    node: Handle,
)
    requires
        log.is_prefix_of(later),
        is_element(log, node),
    ensures
        is_element(later, node),
        name_of(later, node) == name_of(log, node),
    decreases later.len(),
{
    if later.len() > log.len() {
        lemma_element_stays_on(log, later.drop_last(), node);
        lemma_element_stays(later.drop_last(), later.last(), node);
        assert(later.drop_last().push(later.last()) == later);
    } else {
        assert(later == log);
    }
}

/// The handle answered for a new element, at whatever place of the
/// record, is an element.
pub proof fn lemma_created_at<Handle>(log: Seq<SinkOp<Handle>>, at: int)
    requires
        0 <= at < log.len(),
        log[at] is CreateElement,
    ensures
        is_element(log, issued_at(log, at)),
    decreases log.len(),
{
    if at < log.len() - 1 {
        lemma_created_at(log.drop_last(), at);
    }
}

/// A handle that the sink has just answered for a new element is an
/// element. It bears the name it was created with, unless the sink had
/// issued the same handle for an element before.
pub proof fn lemma_created_is_element<Handle>(
    log: Seq<SinkOp<Handle>>,
    name: QualName,
    attrs: Seq<Attribute>,
    node: Handle,
)
    ensures
        is_element(log.push(SinkOp::CreateElement { name, attrs, node }), node),
        !is_element(log, node) ==> name_of(log.push(SinkOp::CreateElement { name, attrs, node }), node)
            == name,
{
    assert(log.push(SinkOp::CreateElement { name, attrs, node }).drop_last() == log);
}

/// The capability that the builder needs: a sink owns the tree and the
/// identity of its nodes.
///
/// `log` is the sink's record. Each command adds the one entry that
/// describes it and changes nothing before it.
pub trait TreeSink: Sized {
    /// What identifies a node. The builder copies and stores handles and
    /// hands them back to the sink; it does nothing else with them.
    type Handle: Copy;

    /// Every command so far, oldest first. A sink that is verified says
    /// here how its record is read off its state, as `RecordingSink` does.
    /// A sink written outside Verus leaves this as it stands: nothing then
    /// holds it to the contracts below, and what is proved of a builder
    /// holds of that sink only as far as it keeps them.
    closed spec fn log(&self) -> Seq<SinkOp<Self::Handle>> {
        arbitrary()
    }

    /// The handle of the document node.
    fn get_document(&mut self) -> (node: Self::Handle)
        ensures
            final(self).log() == old(self).log().push(SinkOp::GetDocument { node }),
    ;

    /// Takes note of a diagnostic. Parsing goes on.
    fn parse_error(&mut self, msg: Cow<'static, str>)
        ensures
            final(self).log() == old(self).log().push(SinkOp::ParseError { msg: msg@ }),
    ;

    /// The name of an element. Only asked of handles that `create_element`
    /// answered.
    fn elem_name(&self, target: &Self::Handle) -> (name: QualName)
        requires
            is_element(self.log(), *target),
        ensures
            name == name_of(self.log(), *target),
    ;

    /// Makes an element that is not yet part of the tree. A handle
    /// identifies one node: the handle answered is not that of an element
    /// made before.
    fn create_element(&mut self, name: QualName, attrs: Vec<Attribute>) -> (node: Self::Handle)
        ensures
            final(self).log() == old(self).log().push(
                SinkOp::CreateElement { name, attrs: attrs@, node },
            ),
            !is_element(old(self).log(), node),
    ;

    /// Makes a comment node that is not yet part of the tree.
    fn create_comment(&mut self, text: Text) -> (node: Self::Handle)
        ensures
            final(self).log() == old(self).log().push(SinkOp::CreateComment { text, node }),
    ;

    /// Makes a processing instruction that is not yet part of the tree.
    fn create_pi(&mut self, target: Text, data: Text) -> (node: Self::Handle)
        ensures
            final(self).log() == old(self).log().push(SinkOp::CreatePi { target, data, node }),
    ;

    /// Appends `child` as the last child of `parent`.
    fn append(&mut self, parent: Self::Handle, child: NodeOrText<Self::Handle>)
        ensures
            final(self).log() == old(self).log().push(SinkOp::Append { parent, child }),
    ;
}

/// A visitor for the handles that a builder holds, for a sink whose nodes
/// are reclaimed by tracing.
pub trait Tracer {
    type Handle;

    /// The handles visited so far, in order. A tracer written outside
    /// Verus leaves this as it stands.
    closed spec fn seen(&self) -> Seq<Self::Handle> {
        arbitrary()
    }

    /// Visits one handle.
    fn trace_handle(&mut self, node: Self::Handle)
        ensures
            final(self).seen() == old(self).seen().push(node),
    ;
}

/// A vector collects the handles it is shown, in the order in which it is
/// shown them.
impl<Handle> Tracer for Vec<Handle> {
    type Handle = Handle;

    open spec fn seen(&self) -> Seq<Handle> {
        self@
    }

    fn trace_handle(&mut self, node: Handle) {
        self.push(node);
    }
}

} // verus!
