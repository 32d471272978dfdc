//! A sink that builds no tree: it keeps the commands it is given, in the
//! order in which they came, for whoever wants to replay them or to see
//! what a builder did.

use crate::names::QualName;
use crate::tendrils::Text;
use crate::tokenizer::Attribute;
use crate::tree_builder::interface::{creation_name, NodeOrText, SinkOp, TreeSink};
use std::borrow::Cow;
use vstd::prelude::*;

verus! {

/// One command as a recording sink keeps it. The handle that the sink
/// answered is not kept: it follows from the command's place.
#[derive(Debug, PartialEq, Eq)]
pub enum Recorded {
    GetDocument,
    CreateElement { name: QualName, attrs: Vec<Attribute> },
    CreateComment { text: Text },
    CreatePi { target: Text, data: Text },
    Append { parent: usize, child: NodeOrText<usize> },
    ParseError { msg: Cow<'static, str> },
}

impl Recorded {
    /// The entry that this command makes in the record when it stands at
    /// place `at`. The document node has the handle 0; a node created by
    /// the command at place `at` has the handle `at + 1`.
    pub open spec fn entry(self, at: int) -> SinkOp<usize> {
        match self {
            Recorded::GetDocument => SinkOp::GetDocument { node: 0 },
            Recorded::CreateElement { name, attrs } => SinkOp::CreateElement {
                name,
                attrs: attrs@,
                node: (at + 1) as usize,
            },
            Recorded::CreateComment { text } => SinkOp::CreateComment {
                text,
                node: (at + 1) as usize,
            },
            Recorded::CreatePi { target, data } => SinkOp::CreatePi {
                target,
                data,
                node: (at + 1) as usize,
            },
            Recorded::Append { parent, child } => SinkOp::Append { parent, child },
            Recorded::ParseError { msg } => SinkOp::ParseError { msg: msg@ },
        }
    }
}

/// The record that a sequence of kept commands stands for.
pub open spec fn record_of(commands: Seq<Recorded>) -> Seq<SinkOp<usize>> {
    Seq::new(commands.len(), |at: int| commands[at].entry(at))
}

/// One command more makes one entry more.
pub proof fn lemma_record_grows(commands: Seq<Recorded>, command: Recorded)
    ensures
        record_of(commands.push(command)) == record_of(commands).push(
            command.entry(commands.len() as int),
        ),
{
    assert(record_of(commands.push(command)) =~= record_of(commands).push(
        command.entry(commands.len() as int),
    ));
}

/// The elements of a record are the handles of its `CreateElement`
/// commands, each under the name that its command gave it.
pub proof fn lemma_record_elements(commands: Seq<Recorded>, node: usize)
    requires
        commands.len() <= usize::MAX,
    ensures
        creation_name(record_of(commands), node) == if 1 <= node <= commands.len()
            && commands[node - 1] is CreateElement {
            Some(commands[node - 1]->CreateElement_name)
        } else {
            None
        },
    decreases commands.len(),
{
    if commands.len() > 0 {
        lemma_record_elements(commands.drop_last(), node);
        lemma_record_grows(commands.drop_last(), commands.last());
        assert(commands.drop_last().push(commands.last()) == commands);
        assert(record_of(commands).drop_last() == record_of(commands.drop_last()));
    }
}

/// A sink that keeps its record and nothing else.
#[derive(Debug)]
pub struct RecordingSink {
    commands: Vec<Recorded>,
}

impl RecordingSink {
    /// The commands kept so far, oldest first.
    pub closed spec fn spec_commands(&self) -> &Vec<Recorded> {
        &self.commands
    }

    /// The record of a recording sink is made of the commands it keeps.
    pub proof fn lemma_log(&self)
        ensures
            self.log() == record_of(self.commands()@),
    {
    }

    /// A sink that has been given no command yet.
    pub fn new() -> (sink: RecordingSink)
        ensures
            sink.commands()@.len() == 0,
            sink.log().len() == 0,
    {
        RecordingSink { commands: Vec::new() }
    }

    /// The commands kept so far, oldest first.
    #[verifier::when_used_as_spec(spec_commands)]
    pub fn commands(&self) -> (commands: &Vec<Recorded>)
        ensures
            commands == self.commands(),
    {
        &self.commands
    }

    /// Keeps one command more. The answer is the handle of the node that
    /// the command creates, where it creates one.
    fn keep(&mut self, command: Recorded) -> (node: usize)
        ensures
            final(self).commands()@ == old(self).commands()@.push(command),
            final(self).log() == old(self).log().push(
                command.entry(old(self).commands()@.len() as int),
            ),
            node == final(self).commands()@.len(),
    {
        proof {
            lemma_record_grows(self.commands@, command);
        }
        self.commands.push(command);
        self.commands.len()
    }
}

impl TreeSink for RecordingSink {
    type Handle = usize;

    closed spec fn log(&self) -> Seq<SinkOp<usize>> {
        record_of(self.commands@)
    }

    fn get_document(&mut self) -> (node: usize) {
        let _ = self.keep(Recorded::GetDocument);
        0
    }

    fn parse_error(&mut self, msg: Cow<'static, str>) {
        let _ = self.keep(Recorded::ParseError { msg });
    }

    fn elem_name(&self, target: &usize) -> (name: QualName) {
        proof {
            assert(self.commands@.len() == self.commands.len());
            lemma_record_elements(self.commands@, *target);
        }
        match &self.commands[*target - 1] {
            Recorded::CreateElement { name, attrs } => name.duplicate(),
            _ => vstd::pervasive::unreached(),
        }
    }

    fn create_element(&mut self, name: QualName, attrs: Vec<Attribute>) -> (node: usize) {
        let ghost kept = self.commands@;
        let node = self.keep(Recorded::CreateElement { name, attrs });
        proof {
            lemma_record_elements(kept, node);
        }
        node
    }

    fn create_comment(&mut self, text: Text) -> (node: usize) {
        self.keep(Recorded::CreateComment { text })
    }

    fn create_pi(&mut self, target: Text, data: Text) -> (node: usize) {
        self.keep(Recorded::CreatePi { target, data })
    }

    fn append(&mut self, parent: usize, child: NodeOrText<usize>) {
        let _ = self.keep(Recorded::Append { parent, child });
    }
}

} // verus!
