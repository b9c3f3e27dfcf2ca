use md_extras::footnote::count::FootnoteCountCoreRule;
use md_extras::footnote::group::FootnoteGroupCoreRule;
use md_extras::footnote::scan::{BlockCursor, FootnoteDefsBlockRule, FootnoteRefsInlinRule};
use md_extras::footnote::{FootnoteDefinition, FootnoteList, FootnoteOptions, FootnoteReference};
use md_extras::markup::{RenderLog, RenderOp};
use md_extras::node::{Node, NodeKind};

fn text(content: &str) -> Node {
    Node {
        kind: NodeKind::Text { content: content.to_string() },
        attrs: Vec::new(),
        children: Vec::new(),
        origin: None,
    }
}

fn block(children: Vec<Node>) -> Node {
    Node { kind: NodeKind::Opaque, attrs: Vec::new(), children, origin: None }
}

fn paragraph(content: &str) -> Node {
    block(vec![text(content)])
}

fn reference(label: &str) -> Node {
    FootnoteRefsInlinRule::run(&format!("[^{}]", label), 0, &FootnoteOptions::default()).unwrap().0
}

fn definition(label: &str, content: &str) -> Node {
    let line = format!("[^{}]: {}", label, content);
    let mut node = FootnoteDefsBlockRule::run(&line, &FootnoteOptions::default()).unwrap();
    node.children.push(paragraph(content));
    node
}

fn placeholder() -> Node {
    Node { kind: NodeKind::Placeholder, attrs: Vec::new(), children: Vec::new(), origin: None }
}

fn list(group: usize, children: Vec<Node>) -> Node {
    Node {
        kind: NodeKind::List(FootnoteList(group)),
        attrs: vec![("class", "footnotes-list".to_string())],
        children,
        origin: None,
    }
}

fn reference_count(node: &Node) -> usize {
    match &node.kind {
        NodeKind::Reference(reference) => reference.count,
        _ => panic!("not a reference"),
    }
}

fn definition_count(node: &Node) -> usize {
    match &node.kind {
        NodeKind::Definition(definition) => definition.count,
        _ => panic!("not a definition"),
    }
}

fn show(ops: &Vec<RenderOp>) -> String {
    let mut parts: Vec<String> = Vec::new();
    for op in ops.iter() {
        parts.push(match op {
            RenderOp::Open { tag, attrs } => {
                let mut open = format!("<{}", tag);
                for (key, value) in attrs.iter() {
                    open.push_str(&format!(" {}={:?}", key, value));
                }
                open.push('>');
                open
            }
            RenderOp::Close { tag } => format!("</{}>", tag),
            RenderOp::Text { content } => format!("text({})", content),
            RenderOp::TextRaw { content } => format!("raw({})", content),
            RenderOp::Cr => "cr".to_string(),
            RenderOp::Contents => "contents".to_string(),
        });
    }
    parts.join(" ")
}

#[test]
fn default_footnote_options() {
    let options = FootnoteOptions::default();
    assert_eq!(options.fn_def_class, "footnotes-def");
    assert_eq!(options.fn_def_id_pref, "fnd");
    assert_eq!(options.fn_br_text, "&#8593;");
    assert_eq!(options.fn_br_class, "footnote-back");
    assert_eq!(options.fn_ref_id_pref, "fnr");
    assert_eq!(options.fn_ref_class, "footnotes-ref");
    assert_eq!(options.fn_list_class, "footnotes-list");
}

#[test]
fn reference_is_recognized_in_running_text() {
    let (node, consumed) =
        FootnoteRefsInlinRule::run("Hello![^foo]", 6, &FootnoteOptions::default()).unwrap();
    assert_eq!(consumed, 6);
    assert_eq!(
        node,
        Node {
            kind: NodeKind::Reference(FootnoteReference { label: "foo".to_string(), count: 0 }),
            attrs: vec![
                ("class", "footnotes-ref".to_string()),
                ("href", "#fnd-foo".to_string())
            ],
            children: Vec::new(),
            origin: None,
        }
    );
}

#[test]
fn reference_link_uses_the_slug_of_the_label() {
    let mut options = FootnoteOptions::default();
    options.fn_def_id_pref = "def".to_string();
    options.fn_ref_class = "ref".to_string();
    let (node, consumed) = FootnoteRefsInlinRule::run("[^My Note!] x", 0, &options).unwrap();
    assert_eq!(consumed, 11);
    assert_eq!(
        node.attrs,
        vec![("class", "ref".to_string()), ("href", "#def-my-note".to_string())]
    );
    assert_eq!(
        node.kind,
        NodeKind::Reference(FootnoteReference { label: "My Note!".to_string(), count: 0 })
    );
}

#[test]
fn reference_needs_its_closing_bracket() {
    let options = FootnoteOptions::default();
    assert!(FootnoteRefsInlinRule::run("[^foo", 0, &options).is_none());
    assert!(FootnoteRefsInlinRule::run("[^", 0, &options).is_none());
    assert!(FootnoteRefsInlinRule::run("a [^foo\\]", 2, &options).is_none());
}

#[test]
fn escaped_bracket_does_not_end_the_label() {
    let (node, consumed) =
        FootnoteRefsInlinRule::run("[^a\\]b] c", 0, &FootnoteOptions::default()).unwrap();
    assert_eq!(consumed, 7);
    assert_eq!(
        node.kind,
        NodeKind::Reference(FootnoteReference { label: "a\\]b".to_string(), count: 0 })
    );
}

#[test]
fn reference_may_have_an_empty_label() {
    let (node, consumed) =
        FootnoteRefsInlinRule::run("[^]", 0, &FootnoteOptions::default()).unwrap();
    assert_eq!(consumed, 3);
    assert_eq!(
        node.kind,
        NodeKind::Reference(FootnoteReference { label: String::new(), count: 0 })
    );
    assert_eq!(node.attrs[1], ("href", "#fnd-".to_string()));
}

#[test]
fn reference_is_counted_in_characters() {
    let (node, consumed) =
        FootnoteRefsInlinRule::run("é[^ü]z", 1, &FootnoteOptions::default()).unwrap();
    assert_eq!(consumed, 4);
    assert_eq!(
        node.kind,
        NodeKind::Reference(FootnoteReference { label: "ü".to_string(), count: 0 })
    );
}

#[test]
fn no_reference_where_no_marker_opens() {
    let options = FootnoteOptions::default();
    assert!(FootnoteRefsInlinRule::run("[foo]", 0, &options).is_none());
    assert!(FootnoteRefsInlinRule::run("x[^foo]", 0, &options).is_none());
    assert!(FootnoteRefsInlinRule::run("[^foo]", 1, &options).is_none());
    assert!(FootnoteRefsInlinRule::run("[^foo]", 6, &options).is_none());
    assert!(FootnoteRefsInlinRule::run("[^foo]", 60, &options).is_none());
    assert!(FootnoteRefsInlinRule::run("", 0, &options).is_none());
}

#[test]
fn no_reference_right_after_a_line_break_or_a_backslash() {
    let options = FootnoteOptions::default();
    assert!(FootnoteRefsInlinRule::run("x\n[^a]", 2, &options).is_none());
    assert!(FootnoteRefsInlinRule::run("x\\[^a]", 2, &options).is_none());
    assert!(FootnoteRefsInlinRule::run("x [^a]", 2, &options).is_some());
}

#[test]
fn definition_label_is_read_from_the_line() {
    assert_eq!(FootnoteDefsBlockRule::get_label("[^foo]: bar!"), Some("foo".to_string()));
    assert_eq!(FootnoteDefsBlockRule::get_label("[^a b]:"), Some("a b".to_string()));
    assert_eq!(FootnoteDefsBlockRule::get_label("[^]: x"), Some(String::new()));
}

#[test]
fn definition_needs_marker_bracket_and_colon() {
    assert_eq!(FootnoteDefsBlockRule::get_label("[^foo] bar"), None);
    assert_eq!(FootnoteDefsBlockRule::get_label("[^foo]"), None);
    assert_eq!(FootnoteDefsBlockRule::get_label("[^foo: bar"), None);
    assert_eq!(FootnoteDefsBlockRule::get_label(" [^foo]: bar"), None);
    assert_eq!(FootnoteDefsBlockRule::get_label("[foo]: bar"), None);
    assert_eq!(FootnoteDefsBlockRule::get_label("["), None);
    assert_eq!(FootnoteDefsBlockRule::get_label(""), None);
}

#[test]
fn definition_label_ends_at_the_first_bracket() {
    assert_eq!(FootnoteDefsBlockRule::get_label("[^a\\]: b]: c"), Some("a\\".to_string()));
    assert_eq!(FootnoteDefsBlockRule::get_label("[^a\\]b]: c"), None);
}

#[test]
fn definition_node_carries_anchor_and_prefix() {
    let node = FootnoteDefsBlockRule::run("[^Foo Bar]: text", &FootnoteOptions::default()).unwrap();
    assert_eq!(
        node,
        Node {
            kind: NodeKind::Definition(FootnoteDefinition {
                id: "Foo Bar".to_string(),
                count: 0,
                br_text: "&#8593;".to_string(),
                br_class: "footnote-back".to_string(),
                ref_id_prefix: "fnr-foo-bar-".to_string(),
            }),
            attrs: vec![
                ("id", "fnd-foo-bar".to_string()),
                ("class", "footnotes-def".to_string())
            ],
            children: Vec::new(),
            origin: None,
        }
    );
    assert!(FootnoteDefsBlockRule::run("no definition", &FootnoteOptions::default()).is_none());
}

#[test]
fn cursor_is_narrowed_and_restored() {
    let cursor = BlockCursor { line: 3, first_nonspace: 40, indent_nonspace: 0, blk_indent: 2 };
    let inner = FootnoteDefsBlockRule::narrow(&cursor, "foo");
    assert_eq!(
        inner,
        BlockCursor { line: 3, first_nonspace: 48, indent_nonspace: 5, blk_indent: 6 }
    );
    let wide = FootnoteDefsBlockRule::narrow(&cursor, "é");
    assert_eq!(wide.first_nonspace, 47);
    let (after, lines) = FootnoteDefsBlockRule::restore(&cursor, 5);
    assert_eq!(after, cursor);
    assert_eq!(lines, 2);
    assert_eq!(FootnoteDefsBlockRule::restore(&cursor, 3), (cursor, 0));
}

#[test]
fn references_are_numbered_per_label() {
    let mut root = block(vec![
        block(vec![text("a"), reference("x"), text("b"), reference("y")]),
        definition("x", "first"),
        block(vec![block(vec![reference("x")]), reference("x"), reference("y")]),
        definition("y", "second"),
        definition("z", "never used"),
    ]);
    FootnoteCountCoreRule::run(&mut root, &FootnoteOptions::default());
    let first = &root.children[0];
    let second = &root.children[2];
    assert_eq!(reference_count(&first.children[1]), 1);
    assert_eq!(reference_count(&first.children[3]), 1);
    assert_eq!(reference_count(&second.children[0].children[0]), 2);
    assert_eq!(reference_count(&second.children[1]), 3);
    assert_eq!(reference_count(&second.children[2]), 2);
    assert_eq!(definition_count(&root.children[1]), 3);
    assert_eq!(definition_count(&root.children[3]), 2);
    assert_eq!(definition_count(&root.children[4]), 0);
    assert_eq!(
        second.children[1].attrs,
        vec![
            ("class", "footnotes-ref".to_string()),
            ("href", "#fnd-x".to_string()),
            ("id", "fnr-x-3".to_string())
        ]
    );
    assert_eq!(first.children[3].attrs[2], ("id", "fnr-y-1".to_string()));
    // Nothing else changes.
    assert_eq!(first.children[0], text("a"));
    assert_eq!(root.children[1].children, vec![paragraph("first")]);
    assert_eq!(root.children[1].attrs.len(), 2);
}

#[test]
fn counting_reaches_references_inside_definitions() {
    let mut inner = definition("a", "see");
    inner.children.push(reference("b"));
    let mut root = block(vec![reference("b"), inner, definition("b", "end")]);
    FootnoteCountCoreRule::run(&mut root, &FootnoteOptions::default());
    assert_eq!(reference_count(&root.children[0]), 1);
    assert_eq!(reference_count(&root.children[1].children[1]), 2);
    assert_eq!(definition_count(&root.children[1]), 0);
    assert_eq!(definition_count(&root.children[2]), 2);
}

#[test]
fn reference_id_uses_the_configured_prefix() {
    let mut options = FootnoteOptions::default();
    options.fn_ref_id_pref = "r".to_string();
    let mut root = block(vec![reference("A b")]);
    FootnoteCountCoreRule::run(&mut root, &options);
    assert_eq!(root.children[0].attrs[2], ("id", "r-a-b-1".to_string()));
}

#[test]
fn many_references_to_one_label() {
    let mut children = Vec::new();
    for _ in 0..12 {
        children.push(reference("n"));
    }
    children.push(definition("n", "note"));
    let mut root = block(children);
    FootnoteCountCoreRule::run(&mut root, &FootnoteOptions::default());
    for i in 0..12 {
        assert_eq!(reference_count(&root.children[i]), i + 1);
    }
    assert_eq!(root.children[11].attrs[2], ("id", "fnr-n-12".to_string()));
    assert_eq!(definition_count(&root.children[12]), 12);
}

#[test]
fn adjacent_definitions_become_one_list() {
    let mut root = block(vec![
        definition("a", "one"),
        definition("b", "two"),
        paragraph("between"),
        definition("c", "three"),
    ]);
    FootnoteGroupCoreRule::run(&mut root, &FootnoteOptions::default());
    assert_eq!(
        root.children,
        vec![
            list(0, vec![definition("a", "one"), definition("b", "two")]),
            paragraph("between"),
            list(1, vec![definition("c", "three")]),
        ]
    );
}

#[test]
fn a_run_in_the_middle_stands_where_it_started() {
    let mut root = block(vec![
        paragraph("intro"),
        paragraph("more"),
        definition("a", "1"),
        definition("b", "2"),
        definition("c", "3"),
        paragraph("outro"),
    ]);
    FootnoteGroupCoreRule::run(&mut root, &FootnoteOptions::default());
    assert_eq!(root.children.len(), 4);
    assert_eq!(
        root.children[2],
        list(2, vec![definition("a", "1"), definition("b", "2"), definition("c", "3")])
    );
    assert_eq!(root.children[3], paragraph("outro"));
    for child in root.children.iter() {
        assert_ne!(child.kind, NodeKind::Placeholder);
    }
}

#[test]
fn list_takes_the_configured_class() {
    let mut options = FootnoteOptions::default();
    options.fn_list_class = "notes".to_string();
    let mut root = block(vec![definition("a", "one")]);
    FootnoteGroupCoreRule::run(&mut root, &options);
    assert_eq!(root.children[0].attrs, vec![("class", "notes".to_string())]);
    assert_eq!(root.children[0].kind, NodeKind::List(FootnoteList(0)));
    assert_eq!(root.children[0].origin, None);
}

#[test]
fn only_top_level_definitions_are_grouped() {
    let nested = block(vec![definition("a", "one"), definition("b", "two")]);
    let mut root = block(vec![paragraph("p"), nested]);
    FootnoteGroupCoreRule::run(&mut root, &FootnoteOptions::default());
    assert_eq!(
        root.children,
        vec![paragraph("p"), block(vec![definition("a", "one"), definition("b", "two")])]
    );
}

#[test]
fn grouping_twice_changes_nothing() {
    let mut root = block(vec![
        paragraph("p"),
        definition("a", "one"),
        definition("b", "two"),
        paragraph("q"),
        definition("c", "three"),
    ]);
    let options = FootnoteOptions::default();
    FootnoteGroupCoreRule::run(&mut root, &options);
    let once = format!("{:?}", root);
    assert_eq!(root.children.len(), 4);
    FootnoteGroupCoreRule::run(&mut root, &options);
    assert_eq!(format!("{:?}", root), once);
    assert_eq!(root.children[1].children.len(), 2);
    assert_eq!(root.children[3].children.len(), 1);
}

#[test]
fn grouping_keeps_root_and_removes_placeholders() {
    let mut root = block(vec![placeholder(), paragraph("p"), placeholder()]);
    root.attrs.push(("class", "doc".to_string()));
    root.origin = Some(7);
    FootnoteGroupCoreRule::run(&mut root, &FootnoteOptions::default());
    assert_eq!(root.children, vec![paragraph("p")]);
    assert_eq!(root.attrs, vec![("class", "doc".to_string())]);
    assert_eq!(root.origin, Some(7));
    let mut empty = block(Vec::new());
    FootnoteGroupCoreRule::run(&mut empty, &FootnoteOptions::default());
    assert_eq!(empty, block(Vec::new()));
}

#[test]
fn an_earlier_list_of_the_same_group_takes_the_definition() {
    let mut root = block(vec![list(1, Vec::new()), definition("a", "one")]);
    FootnoteGroupCoreRule::run(&mut root, &FootnoteOptions::default());
    assert_eq!(
        root.children,
        vec![list(1, vec![definition("a", "one")]), list(1, Vec::new())]
    );
}

#[test]
fn phases_mark_compact_merge() {
    let mut children = vec![
        definition("a", "one"),
        definition("b", "two"),
        paragraph("p"),
        definition("c", "three"),
    ];
    let collected = FootnoteGroupCoreRule::mark(&mut children, "notes");
    let marker = |kind: NodeKind| Node {
        kind,
        attrs: vec![("class", "notes".to_string())],
        children: Vec::new(),
        origin: None,
    };
    assert_eq!(
        children,
        vec![
            marker(NodeKind::List(FootnoteList(0))),
            marker(NodeKind::Placeholder),
            paragraph("p"),
            marker(NodeKind::List(FootnoteList(1))),
        ]
    );
    assert_eq!(
        collected,
        vec![
            (0, definition("a", "one")),
            (0, definition("b", "two")),
            (1, definition("c", "three"))
        ]
    );
    FootnoteGroupCoreRule::compact(&mut children);
    assert_eq!(children.len(), 3);
    assert_eq!(children[1], paragraph("p"));
    FootnoteGroupCoreRule::merge(&mut children, collected);
    assert_eq!(children[0].children, vec![definition("a", "one"), definition("b", "two")]);
    assert_eq!(children[2].children, vec![definition("c", "three")]);
}

#[test]
fn reference_renders_as_link() {
    let mut root = block(vec![reference("foo")]);
    FootnoteCountCoreRule::run(&mut root, &FootnoteOptions::default());
    let node = &root.children[0];
    let mut log = RenderLog::new();
    match &node.kind {
        NodeKind::Reference(reference) => reference.render(node, &mut log),
        _ => unreachable!(),
    }
    assert_eq!(
        show(&log.ops),
        "<a class=\"footnotes-ref\" href=\"#fnd-foo\" id=\"fnr-foo-1\"> text(foo) </a>"
    );
}

#[test]
fn definition_renders_one_back_link_per_reference() {
    let mut node = definition("foo", "bar");
    if let NodeKind::Definition(definition) = &mut node.kind {
        definition.count = 2;
    }
    let mut log = RenderLog::new();
    match &node.kind {
        NodeKind::Definition(definition) => definition.render(&node, &mut log),
        _ => unreachable!(),
    }
    assert_eq!(
        show(&log.ops),
        "<li id=\"fnd-foo\" class=\"footnotes-def\"> cr \
         <a href=\"fnr-foo-1\" class=\"footnote-back\"> raw(&#8593;) </a> cr \
         <a href=\"fnr-foo-2\" class=\"footnote-back\"> raw(&#8593;) </a> cr \
         <strong> text(foo) </strong> text(:) cr contents cr </li> cr"
    );
}

#[test]
fn unreferenced_definition_renders_no_back_link() {
    let node = definition("foo", "bar");
    let mut log = RenderLog::new();
    match &node.kind {
        NodeKind::Definition(definition) => definition.render(&node, &mut log),
        _ => unreachable!(),
    }
    assert_eq!(
        show(&log.ops),
        "<li id=\"fnd-foo\" class=\"footnotes-def\"> cr \
         <strong> text(foo) </strong> text(:) cr contents cr </li> cr"
    );
}

#[test]
fn list_renders_around_its_children() {
    let node = list(0, vec![definition("a", "one")]);
    let mut log = RenderLog::new();
    FootnoteList(0).render(&node, &mut log);
    assert_eq!(show(&log.ops), "cr <ul class=\"footnotes-list\"> cr contents </ul> cr");
}

#[test]
fn one_reference_and_its_definition_end_to_end() {
    // "Hello![^foo]\n\n[^foo]: bar!\n    Newline or *something*\n"
    let options = FootnoteOptions::default();
    let first_line = "Hello![^foo]";
    let (marker, consumed) = FootnoteRefsInlinRule::run(first_line, 6, &options).unwrap();
    assert_eq!(consumed, first_line.len() - 6);
    let mut note = FootnoteDefsBlockRule::run("[^foo]: bar!", &options).unwrap();
    note.children.push(block(vec![
        text("bar!"),
        text("\n"),
        text("Newline or "),
        block(vec![text("something")]),
    ]));
    let mut root = block(vec![block(vec![text("Hello!"), marker]), note]);
    FootnoteCountCoreRule::run(&mut root, &options);
    FootnoteGroupCoreRule::run(&mut root, &options);
    assert_eq!(root.children.len(), 2);
    let linked = &root.children[0].children[1];
    assert_eq!(reference_count(linked), 1);
    assert_eq!(linked.attrs[1], ("href", "#fnd-foo".to_string()));
    assert_eq!(linked.attrs[2], ("id", "fnr-foo-1".to_string()));
    let notes = &root.children[1];
    assert_eq!(notes.kind, NodeKind::List(FootnoteList(1)));
    assert_eq!(notes.children.len(), 1);
    let defined = &notes.children[0];
    assert_eq!(definition_count(defined), 1);
    assert_eq!(defined.attrs[0], ("id", "fnd-foo".to_string()));
    assert_eq!(defined.children[0].collect_text(), "bar!\nNewline or something");
    let mut log = RenderLog::new();
    match &defined.kind {
        NodeKind::Definition(definition) => definition.render(defined, &mut log),
        _ => unreachable!(),
    }
    let anchors = log
        .ops
        .iter()
        .filter(|op| matches!(op, RenderOp::Open { tag, .. } if tag == "a"))
        .count();
    assert_eq!(anchors, 1);
    assert_eq!(
        log.ops[2],
        RenderOp::Open {
            tag: "a".to_string(),
            attrs: vec![
                ("href", "fnr-foo-1".to_string()),
                ("class", "footnote-back".to_string())
            ],
        }
    );
}

#[test]
fn references_are_totalled_over_the_whole_tree() {
    let mut inner = definition("a", "see");
    inner.children.push(reference("b"));
    let root = block(vec![reference("b"), block(vec![reference("c")]), inner]);
    assert_eq!(FootnoteCountCoreRule::reference_total(&root), Some(3));
    assert_eq!(FootnoteCountCoreRule::reference_total(&paragraph("none")), Some(0));
    assert_eq!(FootnoteCountCoreRule::reference_total(&reference("x")), Some(1));
}

#[test]
fn checked_counting_counts_what_can_be_counted() {
    let mut root = block(vec![reference("a"), definition("a", "note"), reference("a")]);
    assert!(FootnoteCountCoreRule::run_checked(&mut root, &FootnoteOptions::default()));
    assert_eq!(reference_count(&root.children[0]), 1);
    assert_eq!(reference_count(&root.children[2]), 2);
    assert_eq!(definition_count(&root.children[1]), 2);
}

#[test]
fn a_reference_without_definition_is_numbered_all_the_same() {
    let mut root = block(vec![reference("lost"), paragraph("text"), reference("lost")]);
    FootnoteCountCoreRule::run(&mut root, &FootnoteOptions::default());
    assert_eq!(reference_count(&root.children[0]), 1);
    assert_eq!(reference_count(&root.children[2]), 2);
    assert_eq!(root.children[2].attrs[1], ("href", "#fnd-lost".to_string()));
    assert_eq!(root.children[2].attrs[2], ("id", "fnr-lost-2".to_string()));
    FootnoteGroupCoreRule::run(&mut root, &FootnoteOptions::default());
    assert_eq!(root.children.len(), 3);
}

#[test]
fn reference_is_found_at_a_byte_and_measured_in_bytes() {
    let options = FootnoteOptions::default();
    let src = "é[^ü€]z";
    let (node, bytes) = FootnoteRefsInlinRule::run_at_byte(src, 2, &options).unwrap();
    assert_eq!(bytes, "[^ü€]".len());
    assert_eq!(
        node.kind,
        NodeKind::Reference(FootnoteReference { label: "ü€".to_string(), count: 0 })
    );
    assert_eq!(&src[2..2 + bytes], "[^ü€]");
    // Byte 1 lies within the first character.
    assert!(FootnoteRefsInlinRule::run_at_byte(src, 1, &options).is_none());
    assert!(FootnoteRefsInlinRule::run_at_byte(src, 0, &options).is_none());
    assert!(FootnoteRefsInlinRule::run_at_byte(src, 200, &options).is_none());
    assert_eq!(
        FootnoteRefsInlinRule::run_at_byte("Hello![^foo]", 6, &options).map(|hit| hit.1),
        Some(6)
    );
}

#[test]
fn each_run_takes_exactly_one_place() {
    let mut root = block(vec![
        definition("a", "1"),
        paragraph("x"),
        definition("b", "2"),
        definition("c", "3"),
        definition("d", "4"),
        placeholder(),
        paragraph("y"),
        definition("e", "5"),
        definition("f", "6"),
    ]);
    FootnoteGroupCoreRule::run(&mut root, &FootnoteOptions::default());
    // Nine nodes, three runs of 1, 3 and 2 definitions, one placeholder.
    assert_eq!(root.children.len(), 9 - 0 - 2 - 1 - 1);
    let lists = root
        .children
        .iter()
        .filter(|child| matches!(child.kind, NodeKind::List(_)))
        .count();
    assert_eq!(lists, 3);
    assert_eq!(root.children[2].children.len(), 3);
}
