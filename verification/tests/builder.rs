use std::borrow::Cow;
use string_cache::DefaultAtom;
use xml_tree_builder::names::{Namespace, QualName};
use xml_tree_builder::tendrils::Text;
use xml_tree_builder::tokenizer::states::XmlState;
use xml_tree_builder::tokenizer::{Attribute, Doctype, XPi, XTag, XTagKind, XToken};
use xml_tree_builder::tree_builder::actions::XmlTreeBuilderActions;
use xml_tree_builder::tree_builder::interface::{NodeOrText, Tracer, TreeSink};
use xml_tree_builder::tree_builder::record::{Recorded, RecordingSink};
use xml_tree_builder::tree_builder::types::{Unsupported, XmlPhase, XmlProcessResult};
use xml_tree_builder::tree_builder::XmlTreeBuilder;

const XHTML: &str = "http://www.w3.org/1999/xhtml";

/// What a node of the test tree is.
#[derive(Debug, Clone, PartialEq)]
enum Kind {
    Document,
    Element(String, String, Vec<(String, String)>),
    Comment(String),
    Pi(String, String),
    Text(String),
}

#[derive(Debug)]
struct Node {
    kind: Kind,
    children: Vec<usize>,
    parent: Option<usize>,
}

/// A sink that keeps its tree in a vector; a handle is an index into it.
#[derive(Debug)]
struct Dom {
    nodes: Vec<Node>,
    errors: Vec<String>,
    documents_asked: usize,
}

impl Dom {
    fn new() -> Dom {
        Dom {
            nodes: vec![Node { kind: Kind::Document, children: vec![], parent: None }],
            errors: vec![],
            documents_asked: 0,
        }
    }

    fn add(&mut self, kind: Kind) -> usize {
        self.nodes.push(Node { kind, children: vec![], parent: None });
        self.nodes.len() - 1
    }

    /// The tree under `node`, written out.
    fn show(&self, node: usize) -> String {
        let inner: Vec<String> = self.nodes[node].children.iter().map(|c| self.show(*c)).collect();
        let inner = inner.join(",");
        match &self.nodes[node].kind {
            Kind::Document => format!("#document[{}]", inner),
            Kind::Element(_, local, attrs) => {
                let attrs: Vec<String> =
                    attrs.iter().map(|(k, v)| format!(" {}={}", k, v)).collect();
                format!("{}{}[{}]", local, attrs.join(""), inner)
            }
            Kind::Comment(text) => format!("<!--{}-->", text),
            Kind::Pi(target, data) => format!("<?{} {}?>", target, data),
            Kind::Text(text) => format!("\"{}\"", text),
        }
    }

    fn tree(&self) -> String {
        self.show(0)
    }
}

impl TreeSink for Dom {
    type Handle = usize;

    fn get_document(&mut self) -> usize {
        self.documents_asked += 1;
        0
    }

    fn parse_error(&mut self, msg: Cow<'static, str>) {
        self.errors.push(msg.into_owned());
    }

    fn elem_name(&self, target: &usize) -> QualName {
        match &self.nodes[*target].kind {
            Kind::Element(ns, local, _) => QualName::new(
                Namespace(DefaultAtom::from(ns.as_str())),
                DefaultAtom::from(local.as_str()),
            ),
            other => panic!("not an element: {:?}", other),
        }
    }

    fn create_element(&mut self, name: QualName, attrs: Vec<Attribute>) -> usize {
        let attrs = attrs
            .iter()
            .map(|a| (a.name.local.to_string(), a.value.as_str().to_string()))
            .collect();
        self.add(Kind::Element(name.ns.0.to_string(), name.local.to_string(), attrs))
    }

    fn create_comment(&mut self, text: Text) -> usize {
        self.add(Kind::Comment(text.as_str().to_string()))
    }

    fn create_pi(&mut self, target: Text, data: Text) -> usize {
        self.add(Kind::Pi(target.as_str().to_string(), data.as_str().to_string()))
    }

    fn append(&mut self, parent: usize, child: NodeOrText<usize>) {
        let child = match child {
            NodeOrText::AppendNode(node) => node,
            NodeOrText::AppendText(text) => self.add(Kind::Text(text.as_str().to_string())),
        };
        self.nodes[child].parent = Some(parent);
        self.nodes[parent].children.push(child);
    }
}

/// A tracer that counts what it is shown.
struct Count {
    shown: usize,
}

impl Tracer for Count {
    type Handle = usize;

    fn trace_handle(&mut self, _node: usize) {
        self.shown += 1;
    }
}

fn run(chars: &str) -> Text {
    Text::from_str(chars).expect("a short slice")
}

fn tag(kind: XTagKind, name: &str) -> XTag {
    XTag { kind, name: DefaultAtom::from(name), attrs: vec![] }
}

fn start(name: &str) -> XToken {
    XToken::XTagToken(tag(XTagKind::StartXTag, name))
}

fn end(name: &str) -> XToken {
    XToken::XTagToken(tag(XTagKind::EndXTag, name))
}

fn void(name: &str) -> XToken {
    XToken::XTagToken(tag(XTagKind::EmptyXTag, name))
}

fn short() -> XToken {
    XToken::XTagToken(tag(XTagKind::ShortXTag, ""))
}

fn text(chars: &str) -> XToken {
    XToken::CharacterXTokens(run(chars))
}

fn comment(chars: &str) -> XToken {
    XToken::CommentXToken(run(chars))
}

fn pi(target: &str, data: &str) -> XToken {
    XToken::PIToken(XPi { target: run(target), data: run(data) })
}

fn feed(builder: &mut XmlTreeBuilder<usize, Dom>, tokens: Vec<XToken>) {
    for token in tokens {
        assert_eq!(builder.process_token(token), Ok(()));
    }
}

/// The local names of the open elements, outermost first.
fn open(builder: &XmlTreeBuilder<usize, Dom>) -> Vec<String> {
    builder.open_elem_names().iter().map(|name| name.local.to_string()).collect()
}

fn depth(builder: &XmlTreeBuilder<usize, Dom>) -> usize {
    builder.open_elem_names().len()
}

fn stack(builder: &XmlTreeBuilder<usize, Dom>) -> Vec<usize> {
    let mut roots: Vec<usize> = vec![];
    builder.trace_handles(&mut roots);
    roots[1..].to_vec()
}

/// A builder with `names` open, each inside the one before.
fn opened(names: &[&str]) -> XmlTreeBuilder<usize, Dom> {
    let mut builder = XmlTreeBuilder::new(Dom::new());
    for name in names {
        feed(&mut builder, vec![start(name)]);
    }
    builder
}

#[test]
fn well_nested_document_builds_its_tree() {
    let mut builder = XmlTreeBuilder::new(Dom::new());
    feed(
        &mut builder,
        vec![
            start("root"),
            start("child"),
            text("x"),
            end("child"),
            end("root"),
            XToken::EOFXToken,
        ],
    );
    assert!(builder.no_open_elems());
    assert_eq!(open(&builder), Vec::<String>::new());
    let dom = builder.unwrap();
    assert_eq!(dom.tree(), "#document[root[child[\"x\"]]]");
    assert_eq!(dom.errors, Vec::<String>::new());
}

#[test]
fn mismatched_close_closes_what_is_inside() {
    let mut builder = XmlTreeBuilder::new(Dom::new());
    feed(&mut builder, vec![start("a"), start("b")]);
    assert_eq!(open(&builder), vec!["a", "b"]);
    let current = builder.current_node();
    assert_eq!(builder.sink().elem_name(&current).local, DefaultAtom::from("b"));
    assert!(builder.tag_in_open_elems(&tag(XTagKind::EndXTag, "a")));
    feed(&mut builder, vec![end("a")]);
    assert!(builder.no_open_elems());
    let dom = builder.unwrap();
    assert_eq!(dom.errors, vec!["Current node doesn't match tag"]);
    assert_eq!(dom.tree(), "#document[a[b[]]]");
    assert_eq!(dom.nodes[2].parent, Some(1));
}

#[test]
fn unmatched_close_is_ignored() {
    let mut builder = XmlTreeBuilder::new(Dom::new());
    feed(&mut builder, vec![start("a")]);
    let before = stack(&builder);
    feed(&mut builder, vec![end("z")]);
    assert_eq!(open(&builder), vec!["a"]);
    assert_eq!(stack(&builder), before);
    let dom = builder.unwrap();
    assert_eq!(dom.tree(), "#document[a[]]");
    assert_eq!(dom.errors, vec!["Current node doesn't match tag"]);
}

#[test]
fn void_tag_is_appended_and_not_opened() {
    let mut builder = XmlTreeBuilder::new(Dom::new());
    feed(&mut builder, vec![start("root")]);
    let result = builder.append_tag(tag(XTagKind::EmptyXTag, "br"));
    assert!(matches!(result, XmlProcessResult::XDone));
    assert_eq!(open(&builder), vec!["root"]);
    let dom = builder.unwrap();
    assert_eq!(dom.tree(), "#document[root[br[]]]");
    assert_eq!(dom.nodes[2].parent, Some(1));
}

#[test]
fn empty_tag_token_is_appended_and_not_opened() {
    let mut builder = XmlTreeBuilder::new(Dom::new());
    feed(&mut builder, vec![start("root"), void("br")]);
    assert_eq!(open(&builder), vec!["root"]);
    assert_eq!(builder.unwrap().tree(), "#document[root[br[]]]");
}

#[test]
fn depth_is_start_tags_less_closures() {
    let mut builder = XmlTreeBuilder::new(Dom::new());
    let tokens = vec![
        comment("prolog"),
        start("a"),
        start("b"),
        void("c"),
        text("t"),
        start("d"),
        end("b"),
        start("e"),
        short(),
        end("nothing"),
    ];
    // start tags seen so far, and elements closed so far, after each token
    let expected: Vec<(usize, usize)> = vec![
        (0, 0),
        (1, 0),
        (2, 0),
        (2, 0),
        (2, 0),
        (3, 0),
        (3, 2),
        (4, 2),
        (4, 3),
        (4, 3),
    ];
    for (token, (starts, closed)) in tokens.into_iter().zip(expected) {
        feed(&mut builder, vec![token]);
        assert_eq!(depth(&builder), starts - closed);
    }
    assert_eq!(open(&builder), vec!["a"]);
}

#[test]
fn every_open_element_was_created_as_an_element() {
    let mut builder = XmlTreeBuilder::new(Dom::new());
    feed(
        &mut builder,
        vec![comment("c"), start("a"), pi("p", "d"), start("b"), text("t"), start("c")],
    );
    let handles = stack(&builder);
    assert_eq!(handles.len(), 3);
    for handle in handles {
        assert!(matches!(builder.sink().nodes[handle].kind, Kind::Element(..)));
    }
}

#[test]
fn close_tag_again_changes_nothing() {
    let mut builder = opened(&["x", "a", "b"]);
    let result = builder.close_tag(tag(XTagKind::EndXTag, "a"));
    assert!(matches!(result, XmlProcessResult::XDone));
    assert_eq!(open(&builder), vec!["x"]);
    let handles = stack(&builder);
    let tree = builder.sink().tree();
    let _ = builder.close_tag(tag(XTagKind::EndXTag, "a"));
    assert_eq!(open(&builder), vec!["x"]);
    assert_eq!(stack(&builder), handles);
    assert_eq!(builder.sink().tree(), tree);
    assert_eq!(tree, "#document[x[a[b[]]]]");
}

#[test]
fn close_tag_again_closes_an_outer_element_of_the_same_name() {
    let mut builder = opened(&["x", "a", "a"]);
    let _ = builder.close_tag(tag(XTagKind::EndXTag, "a"));
    assert_eq!(open(&builder), vec!["x", "a"]);
    let _ = builder.close_tag(tag(XTagKind::EndXTag, "a"));
    assert_eq!(open(&builder), vec!["x"]);
    assert_eq!(builder.unwrap().errors, Vec::<String>::new());
}

#[test]
fn close_tag_closes_the_innermost_match_and_what_is_inside_it() {
    let mut builder = opened(&["a", "b", "a", "c", "d"]);
    let _ = builder.close_tag(tag(XTagKind::EndXTag, "a"));
    assert_eq!(open(&builder), vec!["a", "b"]);
    let dom = builder.unwrap();
    assert_eq!(dom.errors, vec!["Current node doesn't match tag"]);
    assert_eq!(dom.tree(), "#document[a[b[a[c[d[]]]]]]");
}

#[test]
fn close_tag_of_the_current_node_reports_nothing() {
    let mut builder = opened(&["a", "b"]);
    let _ = builder.close_tag(tag(XTagKind::EndXTag, "b"));
    assert_eq!(open(&builder), vec!["a"]);
    assert_eq!(builder.unwrap().errors, Vec::<String>::new());
}

#[test]
fn insert_tag_deepens_by_one_and_append_tag_by_none() {
    let mut builder = opened(&["root"]);
    for (i, name) in ["a", "b", "c"].iter().enumerate() {
        let before = depth(&builder);
        assert_eq!(before, i + 1);
        let result = builder.insert_tag(tag(XTagKind::StartXTag, name));
        assert!(matches!(result, XmlProcessResult::XDone));
        assert_eq!(depth(&builder), before + 1);
        let handles = stack(&builder);
        let _ = builder.append_tag(tag(XTagKind::EmptyXTag, "void"));
        assert_eq!(depth(&builder), before + 1);
        assert_eq!(stack(&builder), handles);
    }
    assert_eq!(open(&builder), vec!["root", "a", "b", "c"]);
    assert_eq!(
        builder.unwrap().tree(),
        "#document[root[a[void[],b[void[],c[void[]]]]]]"
    );
}

#[test]
fn state_change_is_read_once() {
    let mut builder = XmlTreeBuilder::new(Dom::new());
    assert_eq!(builder.query_state_change(), None);
    builder.set_next_tokenizer_state(XmlState::Cdata);
    assert_eq!(builder.query_state_change(), Some(XmlState::Cdata));
    assert_eq!(builder.query_state_change(), None);
    assert_eq!(builder.query_state_change(), None);
    assert_eq!(builder.query_state_change(), None);
    builder.set_next_tokenizer_state(XmlState::Data);
    builder.set_next_tokenizer_state(XmlState::Quiescent);
    assert_eq!(builder.query_state_change(), Some(XmlState::Quiescent));
    assert_eq!(builder.query_state_change(), None);
}

#[test]
fn state_change_survives_tokens_until_read() {
    let mut builder = XmlTreeBuilder::new(Dom::new());
    builder.set_next_tokenizer_state(XmlState::Comment);
    feed(&mut builder, vec![start("a"), text("x"), end("a")]);
    assert_eq!(builder.query_state_change(), Some(XmlState::Comment));
    assert_eq!(builder.query_state_change(), None);
}

#[test]
fn doctype_is_refused_and_changes_nothing() {
    let mut builder = XmlTreeBuilder::new(Dom::new());
    feed(&mut builder, vec![start("a")]);
    let doctype = Doctype { name: Some(run("html")), public_id: None, system_id: None };
    assert_eq!(
        builder.process_token(XToken::DoctypeXToken(doctype)),
        Err(Unsupported::Doctype)
    );
    assert_eq!(open(&builder), vec!["a"]);
    let dom = builder.unwrap();
    assert_eq!(dom.tree(), "#document[a[]]");
    assert_eq!(dom.errors, Vec::<String>::new());
}

#[test]
fn parse_error_goes_to_the_sink_and_nowhere_else() {
    let mut builder = XmlTreeBuilder::new(Dom::new());
    feed(
        &mut builder,
        vec![
            XToken::XParseError(Cow::Borrowed("Bad character")),
            start("a"),
            XToken::XParseError(Cow::Owned(String::from("Saw EOF in tag"))),
        ],
    );
    assert_eq!(open(&builder), vec!["a"]);
    let dom = builder.unwrap();
    assert_eq!(dom.errors, vec!["Bad character", "Saw EOF in tag"]);
    assert_eq!(dom.tree(), "#document[a[]]");
}

#[test]
fn new_asks_for_the_document_once() {
    let builder: XmlTreeBuilder<usize, Dom> = XmlTreeBuilder::new(Dom::new());
    assert!(builder.no_open_elems());
    assert_eq!(builder.sink().documents_asked, 1);
    let mut roots: Vec<usize> = vec![];
    builder.trace_handles(&mut roots);
    assert_eq!(roots, vec![0]);
    let dom = builder.unwrap();
    assert_eq!(dom.documents_asked, 1);
    assert_eq!(dom.tree(), "#document[]");
}

#[test]
fn trace_handles_shows_the_document_then_the_stack() {
    let mut builder = opened(&["a", "b"]);
    feed(&mut builder, vec![comment("c"), start("d")]);
    let mut roots: Vec<usize> = vec![99];
    builder.trace_handles(&mut roots);
    assert_eq!(roots, vec![99, 0, 1, 2, 4]);
    let mut count = Count { shown: 0 };
    builder.trace_handles(&mut count);
    builder.trace_handles(&mut count);
    assert_eq!(count.shown, 8);
}

#[test]
fn sink_mut_reaches_the_sink() {
    let mut builder = opened(&["a"]);
    builder.sink_mut().parse_error(Cow::Borrowed("from outside"));
    let extra = builder.sink_mut().create_comment(run("note"));
    builder.sink_mut().append(0, NodeOrText::AppendNode(extra));
    assert_eq!(open(&builder), vec!["a"]);
    assert_eq!(builder.sink().errors, vec!["from outside"]);
    feed(&mut builder, vec![start("b")]);
    assert_eq!(builder.unwrap().tree(), "#document[a[b[]],<!--note-->]");
}

#[test]
fn current_node_is_the_innermost_open_element() {
    let mut builder = opened(&["a", "b"]);
    assert_eq!(builder.current_node(), 2);
    let popped = builder.pop();
    assert_eq!(popped, 2);
    assert_eq!(builder.current_node(), 1);
    assert!(!builder.no_open_elems());
    assert_eq!(builder.pop(), 1);
    assert!(builder.no_open_elems());
}

#[test]
fn insert_appropriately_appends_under_the_current_node() {
    let mut builder = opened(&["a", "b"]);
    builder.insert_appropriately(NodeOrText::AppendText(run("one")));
    let _ = builder.pop();
    builder.insert_appropriately(NodeOrText::AppendText(run("two")));
    let loose = builder.sink_mut().create_comment(run("three"));
    builder.insert_appropriately(NodeOrText::AppendNode(loose));
    assert_eq!(builder.unwrap().tree(), "#document[a[b[\"one\"],\"two\",<!--three-->]]");
}

#[test]
fn append_tag_to_doc_bypasses_the_stack() {
    let mut builder = opened(&["a", "b"]);
    let mut second = tag(XTagKind::StartXTag, "second");
    second.attrs.push(Attribute {
        name: QualName::new(Namespace(DefaultAtom::from("")), DefaultAtom::from("id")),
        value: run("7"),
    });
    let handle = builder.append_tag_to_doc(second);
    assert_eq!(handle, 3);
    assert_eq!(open(&builder), vec!["a", "b"]);
    assert_eq!(builder.sink().tree(), "#document[a[b[]],second id=7[]]");
    let result = builder.add_to_open_elems(handle);
    assert!(matches!(result, XmlProcessResult::XDone));
    assert_eq!(open(&builder), vec!["a", "b", "second"]);
    assert_eq!(builder.current_node(), 3);
}

#[test]
fn comments_and_instructions_go_where_they_are_sent() {
    let mut builder = opened(&["a"]);
    let _ = builder.append_comment_to_tag(run("in"));
    let _ = builder.append_comment_to_doc(run("out"));
    let _ = builder.append_pi_to_tag(XPi {
        target: run("t1"),
        data: run("d1"),
    });
    let _ = builder.append_pi_to_doc(XPi {
        target: run("t2"),
        data: run("d2"),
    });
    let result = builder.append_text(run("words"));
    assert!(matches!(result, XmlProcessResult::XDone));
    assert_eq!(open(&builder), vec!["a"]);
    assert_eq!(
        builder.unwrap().tree(),
        "#document[a[<!--in-->,<?t1 d1?>,\"words\"],<!--out-->,<?t2 d2?>]"
    );
}

#[test]
fn tag_in_open_elems_goes_by_the_resolved_name() {
    let mut builder = opened(&["a", "b"]);
    assert!(builder.tag_in_open_elems(&tag(XTagKind::EndXTag, "a")));
    assert!(builder.tag_in_open_elems(&tag(XTagKind::EndXTag, "b")));
    assert!(!builder.tag_in_open_elems(&tag(XTagKind::EndXTag, "c")));
    assert!(!builder.tag_in_open_elems(&tag(XTagKind::EndXTag, "A")));
    // an element in another namespace does not bear the tag's name
    let foreign = builder.sink_mut().create_element(
        QualName::new(Namespace(DefaultAtom::from("urn:other")), DefaultAtom::from("c")),
        vec![],
    );
    let _ = builder.add_to_open_elems(foreign);
    assert_eq!(open(&builder), vec!["a", "b", "c"]);
    assert!(!builder.tag_in_open_elems(&tag(XTagKind::EndXTag, "c")));
    let _ = builder.close_tag(tag(XTagKind::EndXTag, "c"));
    assert_eq!(open(&builder), vec!["a", "b", "c"]);
    assert_eq!(builder.unwrap().errors, Vec::<String>::new());
}

#[test]
fn pop_until_stops_at_the_first_accepted_name() {
    let mut builder = opened(&["a", "b", "c", "b", "d"]);
    builder.pop_until(|name: QualName| name.local == DefaultAtom::from("b"));
    assert_eq!(open(&builder), vec!["a", "b", "c", "b"]);
    builder.pop_until(|name: QualName| name.local == DefaultAtom::from("b"));
    assert_eq!(open(&builder), vec!["a", "b", "c", "b"]);
    builder.pop_until(|name: QualName| {
        name.local == DefaultAtom::from("a") || name.local == DefaultAtom::from("c")
    });
    assert_eq!(open(&builder), vec!["a", "b", "c"]);
    builder.pop_until(|name: QualName| name.local == DefaultAtom::from("a"));
    assert_eq!(open(&builder), vec!["a"]);
    assert_eq!(builder.unwrap().tree(), "#document[a[b[c[b[d[]]]]]]");
}

#[test]
fn current_node_in_asks_about_the_current_node_only() {
    let builder = opened(&["a", "b"]);
    assert!(builder.current_node_in(|name: QualName| name.local == DefaultAtom::from("b")));
    assert!(!builder.current_node_in(|name: QualName| name.local == DefaultAtom::from("a")));
    assert!(builder.current_node_in(|name: QualName| name.ns.0 == DefaultAtom::from(XHTML)));
}

#[test]
fn stop_parsing_closes_what_is_open_and_may_be_repeated() {
    let mut builder = opened(&["a", "b", "c"]);
    let result = builder.stop_parsing();
    assert!(matches!(result, XmlProcessResult::XDone));
    assert!(builder.no_open_elems());
    let tree = builder.sink().tree();
    let result = builder.stop_parsing();
    assert!(matches!(result, XmlProcessResult::XDone));
    assert!(builder.no_open_elems());
    assert_eq!(builder.sink().tree(), tree);
    assert_eq!(tree, "#document[a[b[c[]]]]");
    assert_eq!(builder.unwrap().errors, Vec::<String>::new());
}

#[test]
fn end_of_input_closes_open_elements() {
    let mut builder = XmlTreeBuilder::new(Dom::new());
    feed(&mut builder, vec![start("a"), start("b"), text("x"), XToken::EOFXToken]);
    assert!(builder.no_open_elems());
    let dom = builder.unwrap();
    assert_eq!(dom.tree(), "#document[a[b[\"x\"]]]");
    assert_eq!(dom.errors, Vec::<String>::new());
}

#[test]
fn nothing_is_accepted_after_the_end_of_input() {
    let mut builder = XmlTreeBuilder::new(Dom::new());
    feed(&mut builder, vec![start("a"), end("a"), XToken::EOFXToken]);
    feed(&mut builder, vec![start("b"), text("late"), void("c"), end("a"), short()]);
    feed(&mut builder, vec![XToken::NullCharacterXToken, XToken::EOFXToken, comment("c")]);
    feed(&mut builder, vec![pi("t", "d"), text(" ")]);
    assert!(builder.no_open_elems());
    let dom = builder.unwrap();
    assert_eq!(dom.tree(), "#document[a[]]");
    assert_eq!(dom.errors, vec!["Unexpected token after the end of parsing"; 10]);
}

#[test]
fn step_hands_a_tag_from_the_start_phase_to_the_main_phase() {
    let mut builder = XmlTreeBuilder::new(Dom::new());
    let result = builder.step(
        XmlPhase::StartPhase,
        xml_tree_builder::tree_builder::types::XToken::XTagToken(tag(XTagKind::StartXTag, "a")),
    );
    match result {
        XmlProcessResult::XReprocess(
            XmlPhase::MainPhase,
            xml_tree_builder::tree_builder::types::XToken::XTagToken(again),
        ) => {
            assert_eq!(again.name, DefaultAtom::from("a"));
            assert_eq!(again.kind, XTagKind::StartXTag);
        }
        other => panic!("unexpected result {:?}", other),
    }
    assert!(builder.no_open_elems());
    assert_eq!(builder.unwrap().tree(), "#document[]");
}

#[test]
fn step_hands_the_end_of_input_to_the_end_phase() {
    let mut builder = opened(&["a"]);
    for phase in [XmlPhase::StartPhase, XmlPhase::MainPhase] {
        let result =
            builder.step(phase, xml_tree_builder::tree_builder::types::XToken::EOFXToken);
        assert!(matches!(
            result,
            XmlProcessResult::XReprocess(
                XmlPhase::EndPhase,
                xml_tree_builder::tree_builder::types::XToken::EOFXToken
            )
        ));
        assert_eq!(open(&builder), vec!["a"]);
    }
    let result = builder
        .step(XmlPhase::EndPhase, xml_tree_builder::tree_builder::types::XToken::EOFXToken);
    assert!(matches!(result, XmlProcessResult::XDone));
    assert!(builder.no_open_elems());
}

#[test]
fn process_to_completion_follows_the_phases() {
    let mut builder = XmlTreeBuilder::new(Dom::new());
    builder.process_to_completion(xml_tree_builder::tree_builder::types::XToken::XTagToken(tag(
        XTagKind::StartXTag,
        "a",
    )));
    assert_eq!(open(&builder), vec!["a"]);
    builder.process_to_completion(xml_tree_builder::tree_builder::types::XToken::EOFXToken);
    assert!(builder.no_open_elems());
    builder.process_to_completion(xml_tree_builder::tree_builder::types::XToken::CharacterXTokens(
        run("late"),
    ));
    let dom = builder.unwrap();
    assert_eq!(dom.tree(), "#document[a[]]");
    assert_eq!(dom.errors, vec!["Unexpected token after the end of parsing"]);
}

#[test]
fn prolog_takes_comments_instructions_and_white_space() {
    let mut builder = XmlTreeBuilder::new(Dom::new());
    feed(
        &mut builder,
        vec![pi("xml", "version=1"), text("\n \t\r"), comment("hello"), text(""), start("a")],
    );
    assert_eq!(open(&builder), vec!["a"]);
    let dom = builder.unwrap();
    assert_eq!(dom.tree(), "#document[<?xml version=1?>,<!--hello-->,a[]]");
    assert_eq!(dom.errors, Vec::<String>::new());
}

#[test]
fn prolog_reports_what_has_no_place_there() {
    let mut builder = XmlTreeBuilder::new(Dom::new());
    feed(
        &mut builder,
        vec![text(" x "), end("a"), short(), XToken::NullCharacterXToken, text("\u{a0}")],
    );
    assert!(builder.no_open_elems());
    let dom = builder.unwrap();
    assert_eq!(dom.tree(), "#document[]");
    assert_eq!(dom.errors, vec!["Unexpected token in start phase"; 5]);
}

#[test]
fn content_takes_text_comments_and_instructions_under_the_current_node() {
    let mut builder = XmlTreeBuilder::new(Dom::new());
    feed(
        &mut builder,
        vec![
            start("a"),
            text(" "),
            comment("c"),
            start("b"),
            pi("t", "d"),
            XToken::NullCharacterXToken,
            short(),
            text("tail"),
        ],
    );
    assert_eq!(open(&builder), vec!["a"]);
    let dom = builder.unwrap();
    assert_eq!(dom.tree(), "#document[a[\" \",<!--c-->,b[<?t d?>],\"tail\"]]");
    assert_eq!(dom.errors, vec!["Unexpected token in main phase"]);
}

#[test]
fn after_the_last_element_comments_go_to_the_document() {
    let mut builder = XmlTreeBuilder::new(Dom::new());
    feed(
        &mut builder,
        vec![start("a"), end("a"), text("\n"), comment("after"), pi("t", "d"), text("words")],
    );
    assert!(builder.no_open_elems());
    let dom = builder.unwrap();
    assert_eq!(dom.tree(), "#document[a[],<!--after-->,<?t d?>]");
    assert_eq!(dom.errors, vec!["Unexpected token in main phase"]);
}

#[test]
fn an_end_tag_with_nothing_open_is_reported() {
    let mut builder = XmlTreeBuilder::new(Dom::new());
    feed(&mut builder, vec![start("a"), end("a"), end("a"), short(), void("b")]);
    assert!(builder.no_open_elems());
    let dom = builder.unwrap();
    assert_eq!(dom.tree(), "#document[a[],b[]]");
    assert_eq!(dom.errors, vec!["Unexpected token in main phase"; 2]);
}

#[test]
fn an_empty_tag_can_be_the_only_element() {
    let mut builder = XmlTreeBuilder::new(Dom::new());
    feed(&mut builder, vec![void("only"), comment("c"), XToken::EOFXToken]);
    assert!(builder.no_open_elems());
    let dom = builder.unwrap();
    assert_eq!(dom.tree(), "#document[only[],<!--c-->]");
    assert_eq!(dom.errors, Vec::<String>::new());
}

#[test]
fn a_second_element_may_follow_the_first_at_document_level() {
    let mut builder = XmlTreeBuilder::new(Dom::new());
    feed(&mut builder, vec![start("a"), end("a"), start("b"), text("x"), short()]);
    assert!(builder.no_open_elems());
    let dom = builder.unwrap();
    assert_eq!(dom.tree(), "#document[a[],b[\"x\"]]");
    assert_eq!(dom.errors, Vec::<String>::new());
}

#[test]
fn attributes_reach_the_sink_in_order() {
    let mut builder = XmlTreeBuilder::new(Dom::new());
    let mut root = tag(XTagKind::StartXTag, "root");
    for (key, value) in [("b", "2"), ("a", "1"), ("c", "3")] {
        root.attrs.push(Attribute {
            name: QualName::new(Namespace(DefaultAtom::from("")), DefaultAtom::from(key)),
            value: run(value),
        });
    }
    let mut leaf = tag(XTagKind::EmptyXTag, "leaf");
    leaf.attrs.push(Attribute {
        name: QualName::new(Namespace(DefaultAtom::from("")), DefaultAtom::from("k")),
        value: run("v"),
    });
    feed(&mut builder, vec![XToken::XTagToken(root), XToken::XTagToken(leaf)]);
    assert_eq!(builder.unwrap().tree(), "#document[root b=2 a=1 c=3[leaf k=v[]]]");
}

#[test]
fn elements_are_created_in_the_placeholder_namespace() {
    let mut builder = XmlTreeBuilder::new(Dom::new());
    feed(&mut builder, vec![start("a"), void("b")]);
    let dom = builder.unwrap();
    assert_eq!(
        dom.nodes[1].kind,
        Kind::Element(String::from(XHTML), String::from("a"), vec![])
    );
    assert_eq!(
        dom.nodes[2].kind,
        Kind::Element(String::from(XHTML), String::from("b"), vec![])
    );
}

#[test]
fn resolve_puts_a_local_name_in_the_placeholder_namespace() {
    let local = DefaultAtom::from("a-rather-long-local-name");
    let name = QualName::resolve(&local);
    assert_eq!(name.local, local);
    assert_eq!(&*name.local, "a-rather-long-local-name");
    assert_eq!(&*name.ns.0, XHTML);
    assert_eq!(Namespace::placeholder().0, DefaultAtom::from(XHTML));
}

#[test]
fn names_are_the_same_when_namespace_and_local_name_are() {
    let a = QualName::new(Namespace(DefaultAtom::from("urn:one")), DefaultAtom::from("a"));
    let same = QualName::new(Namespace(DefaultAtom::from("urn:one")), DefaultAtom::from("a"));
    let other_local = QualName::new(Namespace(DefaultAtom::from("urn:one")), DefaultAtom::from("b"));
    let other_ns = QualName::new(Namespace(DefaultAtom::from("urn:two")), DefaultAtom::from("a"));
    assert!(a.same(&same));
    assert!(a.same(&a));
    assert!(!a.same(&other_local));
    assert!(!a.same(&other_ns));
    assert!(!other_local.same(&other_ns));
    assert!(QualName::resolve(&DefaultAtom::from("a")).same(&QualName::new(
        Namespace(DefaultAtom::from(XHTML)),
        DefaultAtom::from("a")
    )));
    let long = QualName::resolve(&DefaultAtom::from("a-rather-long-local-name"));
    assert!(long.same(&QualName::resolve(&DefaultAtom::from("a-rather-long-local-name"))));
    assert!(!long.same(&QualName::resolve(&DefaultAtom::from("a-rather-long-local-nama"))));
}

#[test]
fn text_holds_the_characters_it_was_made_of() {
    for chars in ["", "x", "a longer run of text, beyond what fits inline", "gr\u{fc}\u{df}e \u{2603}"] {
        assert_eq!(run(chars).as_str(), chars);
    }
}

#[test]
fn blank_text_is_white_space_only() {
    assert!(run("").is_blank());
    assert!(run(" ").is_blank());
    assert!(run(" \t\r\n \n").is_blank());
    assert!(!run("x").is_blank());
    assert!(!run("  x").is_blank());
    assert!(!run("x  ").is_blank());
    assert!(!run(" \u{c} ").is_blank());
    assert!(!run("\u{a0}").is_blank());
    assert!(!run("\u{2003}").is_blank());
}

fn name(local: &str) -> QualName {
    QualName::new(Namespace(DefaultAtom::from(XHTML)), DefaultAtom::from(local))
}

fn element(local: &str) -> Recorded {
    Recorded::CreateElement { name: name(local), attrs: vec![] }
}

fn hang(parent: usize, child: usize) -> Recorded {
    Recorded::Append { parent, child: NodeOrText::AppendNode(child) }
}

#[test]
fn record_of_a_well_nested_document() {
    let mut builder = XmlTreeBuilder::new(RecordingSink::new());
    for token in [start("root"), start("child"), text("x"), end("child"), end("root")] {
        assert_eq!(builder.process_token(token), Ok(()));
    }
    assert_eq!(builder.process_token(XToken::EOFXToken), Ok(()));
    assert!(builder.no_open_elems());
    let sink = builder.unwrap();
    let expected = vec![
        Recorded::GetDocument,
        element("root"),
        hang(0, 2),
        element("child"),
        hang(2, 4),
        Recorded::Append { parent: 4, child: NodeOrText::AppendText(run("x")) },
    ];
    assert_eq!(sink.commands(), &expected);
}

#[test]
fn record_of_a_mismatched_close() {
    let mut builder = XmlTreeBuilder::new(RecordingSink::new());
    for token in [start("a"), start("b"), end("a"), end("a")] {
        assert_eq!(builder.process_token(token), Ok(()));
    }
    assert!(builder.no_open_elems());
    let sink = builder.unwrap();
    let expected = vec![
        Recorded::GetDocument,
        element("a"),
        hang(0, 2),
        element("b"),
        hang(2, 4),
        Recorded::ParseError { msg: Cow::Borrowed("Current node doesn't match tag") },
        Recorded::ParseError { msg: Cow::Borrowed("Unexpected token in main phase") },
    ];
    assert_eq!(sink.commands(), &expected);
}

#[test]
fn record_of_comments_instructions_and_attributes() {
    let mut builder = XmlTreeBuilder::new(RecordingSink::new());
    let mut root = tag(XTagKind::StartXTag, "root");
    root.attrs.push(Attribute { name: name("id"), value: run("7") });
    let tokens = vec![
        pi("xml", "version=1"),
        comment("before"),
        XToken::XTagToken(root),
        comment("inside"),
        pi("t", "d"),
        void("leaf"),
        XToken::XParseError(Cow::Borrowed("from the tokenizer")),
        short(),
        comment("after"),
    ];
    for token in tokens {
        assert_eq!(builder.process_token(token), Ok(()));
    }
    let sink = builder.unwrap();
    let expected = vec![
        Recorded::GetDocument,
        Recorded::CreatePi { target: run("xml"), data: run("version=1") },
        hang(0, 2),
        Recorded::CreateComment { text: run("before") },
        hang(0, 4),
        Recorded::CreateElement {
            name: name("root"),
            attrs: vec![Attribute { name: name("id"), value: run("7") }],
        },
        hang(0, 6),
        Recorded::CreateComment { text: run("inside") },
        hang(6, 8),
        Recorded::CreatePi { target: run("t"), data: run("d") },
        hang(6, 10),
        element("leaf"),
        hang(6, 12),
        Recorded::ParseError { msg: Cow::Borrowed("from the tokenizer") },
        Recorded::CreateComment { text: run("after") },
        hang(0, 15),
    ];
    assert_eq!(sink.commands(), &expected);
}

#[test]
fn recording_sink_answers_the_place_of_each_command() {
    let mut sink = RecordingSink::new();
    assert_eq!(sink.commands().len(), 0);
    assert_eq!(sink.get_document(), 0);
    assert_eq!(sink.create_element(name("a"), vec![]), 2);
    assert_eq!(sink.create_comment(run("c")), 3);
    sink.append(2, NodeOrText::AppendNode(3));
    sink.parse_error(Cow::Borrowed("oops"));
    assert_eq!(sink.create_pi(run("t"), run("d")), 6);
    assert_eq!(sink.create_element(name("b"), vec![]), 7);
    assert_eq!(sink.get_document(), 0);
    assert_eq!(sink.elem_name(&2), name("a"));
    assert_eq!(sink.elem_name(&7), name("b"));
    assert_eq!(sink.commands().len(), 8);
    assert_eq!(sink.commands()[4], Recorded::ParseError { msg: Cow::Borrowed("oops") });
}

#[test]
fn duplicate_gives_the_same_name() {
    let first = QualName::new(
        Namespace(DefaultAtom::from("urn:a-namespace-of-some-length")),
        DefaultAtom::from("a-rather-long-local-name"),
    );
    let copy = first.duplicate();
    assert!(copy.same(&first));
    assert_eq!(copy, first);
    assert_eq!(&*copy.ns.0, "urn:a-namespace-of-some-length");
    assert_eq!(&*copy.local, "a-rather-long-local-name");
    assert_eq!(&*first.local, "a-rather-long-local-name");
}

#[test]
fn a_recording_sink_names_the_open_elements() {
    let mut builder = XmlTreeBuilder::new(RecordingSink::new());
    for token in [start("a"), start("b"), void("c"), start("d")] {
        assert_eq!(builder.process_token(token), Ok(()));
    }
    assert_eq!(builder.open_elem_names(), vec![name("a"), name("b"), name("d")]);
    let mut roots: Vec<usize> = vec![];
    builder.trace_handles(&mut roots);
    assert_eq!(roots, vec![0, 2, 4, 8]);
    assert!(builder.tag_in_open_elems(&tag(XTagKind::EndXTag, "b")));
    assert!(!builder.tag_in_open_elems(&tag(XTagKind::EndXTag, "c")));
}

#[test]
fn no_token_is_accepted_after_stop_parsing() {
    let mut builder = opened(&["a"]);
    let result = builder.stop_parsing();
    assert!(matches!(result, XmlProcessResult::XDone));
    assert!(builder.no_open_elems());
    let tree = builder.sink().tree();
    assert_eq!(tree, "#document[a[]]");
    feed(&mut builder, vec![start("b")]);
    assert!(builder.no_open_elems());
    assert_eq!(builder.sink().tree(), tree);
    feed(
        &mut builder,
        vec![void("c"), text("x"), text(" "), comment("c"), pi("t", "d"), end("a"), short()],
    );
    feed(&mut builder, vec![XToken::NullCharacterXToken, XToken::EOFXToken, start("d")]);
    assert!(builder.no_open_elems());
    assert_eq!(stack(&builder), Vec::<usize>::new());
    let dom = builder.unwrap();
    assert_eq!(dom.tree(), tree);
    assert_eq!(dom.errors, vec!["Unexpected token after the end of parsing"; 11]);
}

#[test]
fn after_stop_parsing_parse_errors_still_reach_the_sink_and_doctypes_are_refused() {
    let mut builder = opened(&["a", "b"]);
    let _ = builder.stop_parsing();
    feed(&mut builder, vec![XToken::XParseError(Cow::Borrowed("late"))]);
    let doctype = Doctype { name: None, public_id: None, system_id: None };
    assert_eq!(
        builder.process_token(XToken::DoctypeXToken(doctype)),
        Err(Unsupported::Doctype)
    );
    assert!(builder.no_open_elems());
    let dom = builder.unwrap();
    assert_eq!(dom.tree(), "#document[a[b[]]]");
    assert_eq!(dom.errors, vec!["late"]);
}

#[test]
fn step_reports_every_token_in_every_phase_after_stop_parsing() {
    let mut builder = opened(&["a"]);
    let _ = builder.stop_parsing();
    for phase in [XmlPhase::StartPhase, XmlPhase::MainPhase, XmlPhase::EndPhase] {
        let result = builder.step(
            phase,
            xml_tree_builder::tree_builder::types::XToken::XTagToken(tag(XTagKind::StartXTag, "b")),
        );
        assert_eq!(result, XmlProcessResult::XDone);
        let result =
            builder.step(phase, xml_tree_builder::tree_builder::types::XToken::EOFXToken);
        assert_eq!(result, XmlProcessResult::XDone);
    }
    assert!(builder.no_open_elems());
    let sink = builder.unwrap();
    assert_eq!(sink.tree(), "#document[a[]]");
    assert_eq!(sink.errors, vec!["Unexpected token after the end of parsing"; 6]);
}

#[test]
fn record_after_stop_parsing_holds_diagnostics_only() {
    let mut builder = XmlTreeBuilder::new(RecordingSink::new());
    assert_eq!(builder.process_token(start("a")), Ok(()));
    let _ = builder.stop_parsing();
    assert_eq!(builder.process_token(start("b")), Ok(()));
    assert_eq!(builder.process_token(text("x")), Ok(()));
    assert!(builder.no_open_elems());
    let sink = builder.unwrap();
    let expected = vec![
        Recorded::GetDocument,
        element("a"),
        hang(0, 2),
        Recorded::ParseError { msg: Cow::Borrowed("Unexpected token after the end of parsing") },
        Recorded::ParseError { msg: Cow::Borrowed("Unexpected token after the end of parsing") },
    ];
    assert_eq!(sink.commands(), &expected);
}

#[test]
fn an_end_tag_undoes_the_start_tag_of_the_same_name() {
    let mut builder = opened(&["a", "b"]);
    let before = stack(&builder);
    let _ = builder.insert_tag(tag(XTagKind::StartXTag, "c"));
    assert_eq!(open(&builder), vec!["a", "b", "c"]);
    let current = builder.current_node();
    assert!(!before.contains(&current));
    assert_eq!(builder.sink().elem_name(&current), name("c"));
    let _ = builder.close_tag(tag(XTagKind::EndXTag, "c"));
    assert_eq!(stack(&builder), before);
    assert_eq!(builder.unwrap().errors, Vec::<String>::new());
}

#[test]
fn a_new_element_has_a_handle_of_its_own() {
    let mut sink = RecordingSink::new();
    let mut handles: Vec<usize> = vec![];
    for local in ["a", "a", "b", "a"] {
        let handle = sink.create_element(name(local), vec![]);
        assert!(!handles.contains(&handle));
        handles.push(handle);
        assert_eq!(sink.elem_name(&handle), name(local));
    }
    assert_eq!(handles, vec![1, 2, 3, 4]);
    let mut builder = opened(&["a"]);
    let first = builder.append_tag_to_doc(tag(XTagKind::StartXTag, "b"));
    let second = builder.append_tag_to_doc(tag(XTagKind::StartXTag, "b"));
    assert_ne!(first, second);
    assert_ne!(first, builder.current_node());
    assert_eq!(builder.sink().elem_name(&first), name("b"));
    assert_eq!(builder.sink().elem_name(&second), name("b"));
}

#[test]
fn atoms_of_different_texts_are_different_names() {
    for (one, other) in [("a", "z"), ("a", "A"), ("a", "aa"), ("", " ")] {
        assert!(!QualName::resolve(&DefaultAtom::from(one))
            .same(&QualName::resolve(&DefaultAtom::from(other))));
    }
    let long = "a local name that is longer than an atom keeps inline";
    let longer = "a local name that is longer than an atom keeps inline!";
    assert!(!QualName::resolve(&DefaultAtom::from(long))
        .same(&QualName::resolve(&DefaultAtom::from(longer))));
    assert!(QualName::resolve(&DefaultAtom::from(long))
        .same(&QualName::resolve(&DefaultAtom::from(long))));
    assert_eq!(&*Namespace::placeholder().0, XHTML);
    assert!(!same_ns(Namespace::placeholder(), "http://www.w3.org/1999/xhtm"));
}

fn same_ns(ns: Namespace, uri: &str) -> bool {
    QualName::new(ns, DefaultAtom::from("x"))
        .same(&QualName::new(Namespace(DefaultAtom::from(uri)), DefaultAtom::from("x")))
}
