use md_extras::markup::{RenderLog, RenderOp};
use md_extras::node::{find_attr, Node, NodeKind};
use md_extras::toc::detect::TableOfContentsDetect;
use md_extras::toc::headings::Heading;
use md_extras::toc::{TOCOptions, TableOfContentsItem, TOC};

fn text(content: &str) -> Node {
    Node {
        kind: NodeKind::Text { content: content.to_string() },
        attrs: Vec::new(),
        children: Vec::new(),
        origin: None,
    }
}

fn heading(level: u8, title: &str) -> Node {
    Node {
        kind: NodeKind::Heading { level },
        attrs: Vec::new(),
        children: vec![text(title)],
        origin: None,
    }
}

fn paragraph(content: &str) -> Node {
    Node { kind: NodeKind::Opaque, attrs: Vec::new(), children: vec![text(content)], origin: None }
}

fn document(children: Vec<Node>) -> Node {
    Node { kind: NodeKind::Opaque, attrs: Vec::new(), children, origin: None }
}

fn record(level: u8, title: &str) -> Heading {
    Heading { level, title: title.to_string(), slug: title.to_lowercase() }
}

fn records(levels: &[u8]) -> Vec<Heading> {
    let mut headings = Vec::new();
    for (i, level) in levels.iter().enumerate() {
        headings.push(record(*level, &format!("h{}", i)));
    }
    headings
}

fn item(level: u8, title: &str) -> TableOfContentsItem {
    TableOfContentsItem {
        slug: title.to_lowercase(),
        title: title.to_string(),
        level,
        children: Box::new(Vec::new()),
    }
}

fn depths(items: &Vec<TableOfContentsItem>, depth: usize, out: &mut Vec<(usize, String)>) {
    for item in items.iter() {
        out.push((depth, item.title.clone()));
        depths(&item.children, depth + 1, out);
    }
}

fn flat(toc: &TOC) -> Vec<(usize, String)> {
    let mut out = Vec::new();
    depths(&toc.contents, 0, &mut out);
    out
}

fn show(ops: &Vec<RenderOp>) -> String {
    let mut parts: Vec<String> = Vec::new();
    for op in ops.iter() {
        parts.push(match op {
            RenderOp::Open { tag, attrs } => {
                let mut open = format!("<{}", tag);
                for (key, value) in attrs.iter() {
                    open.push_str(&format!(" {}={:?}", key, value));
                }
                open.push('>');
                open
            }
            RenderOp::Close { tag } => format!("</{}>", tag),
            RenderOp::Text { content } => format!("text({})", content),
            RenderOp::TextRaw { content } => format!("raw({})", content),
            RenderOp::Cr => "cr".to_string(),
            RenderOp::Contents => "contents".to_string(),
        });
    }
    parts.join(" ")
}

fn outline_of(root: &Node) -> Option<(usize, &TOC)> {
    for (i, child) in root.children.iter().enumerate() {
        if let NodeKind::Outline(toc) = &child.kind {
            return Some((i, toc));
        }
    }
    None
}

#[test]
fn default_outline_options() {
    let options = TOCOptions::default();
    assert!(!options.allow_titles_in_toc);
    assert!(!options.treat_title_as_h2);
    assert_eq!(options.toc_class, "table_of_contents");
    assert!(options.wrap_in_nav);
    assert_eq!(options.toc_heading, Some((2, "Contents".to_string())));
}

#[test]
fn item_push_appends_without_children() {
    let mut parent = item(2, "A");
    parent.push(item(3, "B"), 9);
    assert_eq!(parent.children.len(), 1);
    assert_eq!(parent.children[0].title, "B");
}

#[test]
fn item_push_compares_with_the_last_child() {
    let mut parent = item(2, "A");
    parent.push(item(3, "B"), 3);
    // Level 4 is deeper than that of the last child, B: under B.
    parent.push(item(4, "C"), 4);
    assert_eq!(parent.children.len(), 1);
    assert_eq!(parent.children[0].children.len(), 1);
    assert_eq!(parent.children[0].children[0].title, "C");
    // Level 3 is not: a sibling of B.
    parent.push(item(3, "D"), 3);
    assert_eq!(parent.children.len(), 2);
    assert_eq!(parent.children[1].title, "D");
    assert_eq!(parent.children[1].children.len(), 0);
    // Level 9 goes down the last children as far as there are any.
    parent.push(item(9, "E"), 9);
    assert_eq!(parent.children.len(), 2);
    assert_eq!(parent.children[1].children[0].title, "E");
}

#[test]
fn outline_push_resets_the_level_it_compares_with() {
    let mut toc = TOC::from_headings(Vec::new(), &TOCOptions::default());
    assert_eq!(toc.min_level, 6);
    toc.push(item(3, "A"), 3);
    assert_eq!(toc.min_level, 3);
    assert_eq!(toc.contents.len(), 1);
    toc.push(item(2, "B"), 2);
    assert_eq!(toc.min_level, 2);
    assert_eq!(toc.contents.len(), 2);
    toc.push(item(3, "C"), 3);
    assert_eq!(toc.min_level, 2);
    assert_eq!(toc.contents.len(), 2);
    assert_eq!(toc.contents[1].children[0].title, "C");
}

#[test]
fn four_headings_of_one_level_stay_flat() {
    let toc = TOC::from_headings(records(&[2, 2, 2, 2]), &TOCOptions::default());
    assert_eq!(toc.contents.len(), 4);
    for item in toc.contents.iter() {
        assert_eq!(item.children.len(), 0);
    }
    assert_eq!(
        flat(&toc),
        vec![
            (0, "h0".to_string()),
            (0, "h1".to_string()),
            (0, "h2".to_string()),
            (0, "h3".to_string())
        ]
    );
}

#[test]
fn a_deeper_heading_nests_under_the_one_before() {
    let toc = TOC::from_headings(records(&[2, 3, 2]), &TOCOptions::default());
    assert_eq!(toc.contents.len(), 2);
    assert_eq!(toc.contents[0].children.len(), 1);
    assert_eq!(toc.contents[0].children[0].title, "h1");
    assert_eq!(toc.contents[1].children.len(), 0);
}

#[test]
fn skipped_levels_are_flattened() {
    let toc = TOC::from_headings(records(&[2, 4, 4, 3, 6]), &TOCOptions::default());
    let entries = flat(&toc);
    assert_eq!(entries.len(), 5);
    assert_eq!(entries[0].0, 0);
    for i in 1..entries.len() {
        assert!(entries[i].0 <= entries[i - 1].0 + 1);
    }
    let titles: Vec<&str> = entries.iter().map(|entry| entry.1.as_str()).collect();
    assert_eq!(titles, vec!["h0", "h1", "h2", "h3", "h4"]);
    assert_eq!(
        entries.iter().map(|entry| entry.0).collect::<Vec<usize>>(),
        vec![0, 1, 1, 1, 2]
    );
}

#[test]
fn every_heading_has_one_entry() {
    let levels = [3, 2, 5, 5, 4, 2, 6, 3, 3, 2];
    let toc = TOC::from_headings(records(&levels), &TOCOptions::default());
    let entries = flat(&toc);
    assert_eq!(entries.len(), levels.len());
    assert_eq!(entries[0].0, 0);
    for i in 1..entries.len() {
        assert!(entries[i].0 <= entries[i - 1].0 + 1);
        assert_eq!(entries[i].1, format!("h{}", i));
    }
}

#[test]
fn titles_stay_out_unless_allowed() {
    let toc = TOC::from_headings(records(&[1, 2, 2]), &TOCOptions::default());
    assert_eq!(flat(&toc), vec![(0, "h1".to_string()), (0, "h2".to_string())]);
}

#[test]
fn allowed_titles_take_the_top() {
    let mut options = TOCOptions::default();
    options.allow_titles_in_toc = true;
    let toc = TOC::from_headings(records(&[1, 2, 2]), &options);
    assert_eq!(
        flat(&toc),
        vec![(0, "h0".to_string()), (1, "h1".to_string()), (1, "h2".to_string())]
    );
    assert_eq!(toc.contents[0].level, 1);
}

#[test]
fn titles_treated_as_second_level() {
    let mut options = TOCOptions::default();
    options.allow_titles_in_toc = true;
    options.treat_title_as_h2 = true;
    let toc = TOC::from_headings(records(&[2, 1, 3]), &options);
    assert_eq!(
        flat(&toc),
        vec![(0, "h0".to_string()), (0, "h1".to_string()), (1, "h2".to_string())]
    );
    assert_eq!(toc.min_level, 2);
}

#[test]
fn a_title_treated_as_second_level_takes_no_second_level_under_it() {
    let mut options = TOCOptions::default();
    options.allow_titles_in_toc = true;
    options.treat_title_as_h2 = true;
    let toc = TOC::from_headings(records(&[1, 2, 3, 1]), &options);
    assert_eq!(
        flat(&toc),
        vec![
            (0, "h0".to_string()),
            (0, "h1".to_string()),
            (1, "h2".to_string()),
            (0, "h3".to_string())
        ]
    );
    assert_eq!(toc.contents[0].level, 1);
}

#[test]
fn each_deeper_heading_nests_one_step_further() {
    let toc = TOC::from_headings(records(&[2, 3, 4, 3, 2]), &TOCOptions::default());
    assert_eq!(
        flat(&toc),
        vec![
            (0, "h0".to_string()),
            (1, "h1".to_string()),
            (2, "h2".to_string()),
            (1, "h3".to_string()),
            (0, "h4".to_string())
        ]
    );
}

#[test]
fn outline_carries_the_rendering_options() {
    let mut options = TOCOptions::default();
    options.wrap_in_nav = false;
    options.toc_heading = Some((3, "Index".to_string()));
    let toc = TOC::from_headings(Vec::new(), &options);
    assert!(!toc.wrap_in_nav);
    assert_eq!(toc.toc_heading, Some((3, "Index".to_string())));
    assert_eq!(toc.contents.len(), 0);
}

#[test]
fn text_is_collected_in_document_order() {
    let mut emphasis = paragraph("or ");
    emphasis.children.push(text("something"));
    let mut node = heading(2, "Newline ");
    node.children.push(emphasis);
    node.children.push(text("!"));
    assert_eq!(node.collect_text(), "Newline or something!");
    assert_eq!(paragraph("").collect_text(), "");
}

#[test]
fn first_attribute_of_a_name_is_found() {
    let attrs = vec![
        ("class", "a".to_string()),
        ("id", "first".to_string()),
        ("id", "second".to_string()),
    ];
    assert_eq!(find_attr(&attrs, "id"), Some(1));
    assert_eq!(find_attr(&attrs, "class"), Some(0));
    assert_eq!(find_attr(&attrs, "href"), None);
    assert_eq!(find_attr(&Vec::new(), "id"), None);
}

#[test]
fn headings_are_collected_and_identified() {
    let mut quoted = document(vec![heading(3, "Inner Part")]);
    quoted.attrs.push(("class", "quote".to_string()));
    let mut given = heading(2, "Given");
    given.attrs.push(("id", "custom".to_string()));
    let mut root = document(vec![paragraph("intro"), given, quoted, heading(2, "Last One!")]);
    let mut headings = Vec::new();
    TableOfContentsDetect::collect(&mut root, &mut headings);
    assert_eq!(
        headings,
        vec![
            Heading { level: 2, title: "Given".to_string(), slug: "custom".to_string() },
            Heading { level: 3, title: "Inner Part".to_string(), slug: "inner-part".to_string() },
            Heading { level: 2, title: "Last One!".to_string(), slug: "last-one".to_string() },
        ]
    );
    assert_eq!(root.children[1].attrs, vec![("id", "custom".to_string())]);
    assert_eq!(root.children[2].attrs, vec![("class", "quote".to_string())]);
    assert_eq!(root.children[2].children[0].attrs, vec![("id", "inner-part".to_string())]);
    assert_eq!(root.children[3].attrs, vec![("id", "last-one".to_string())]);
    assert_eq!(root.children[0], paragraph("intro"));
}

#[test]
fn no_outline_without_headings() {
    let mut root = document(vec![paragraph("This is a very basic page that has 0 headings.")]);
    TableOfContentsDetect::run(&mut root, &TOCOptions::default());
    assert_eq!(root, document(vec![paragraph("This is a very basic page that has 0 headings.")]));
}

#[test]
fn no_outline_for_one_heading() {
    let mut root = document(vec![
        paragraph("This page has 1 heading. (2 are required.)"),
        heading(2, "See?"),
        paragraph("Because there's not enough headings, the table of contents doesn't get added."),
    ]);
    TableOfContentsDetect::run(&mut root, &TOCOptions::default());
    assert_eq!(root.children.len(), 3);
    assert!(outline_of(&root).is_none());
    // The heading is identified all the same.
    assert_eq!(root.children[1].attrs, vec![("id", "see".to_string())]);
}

#[test]
fn outline_stands_before_the_first_heading() {
    let mut root = document(vec![
        paragraph("This page has enough headings for the TOC to show up."),
        heading(2, "See?"),
        paragraph("Because there's enough headings, the table appears before the first heading."),
        heading(2, "Lorem?"),
        paragraph("Ipsum."),
        heading(2, "Another heading"),
        paragraph("Yeah"),
        heading(2, "Where does it show up?"),
        paragraph("It shows up before the first heading."),
    ]);
    TableOfContentsDetect::run(&mut root, &TOCOptions::default());
    assert_eq!(root.children.len(), 10);
    let (at, toc) = outline_of(&root).unwrap();
    assert_eq!(at, 1);
    assert_eq!(root.children[1].attrs, vec![("class", "table_of_contents".to_string())]);
    assert_eq!(root.children[1].origin, None);
    assert_eq!(root.children[2], {
        let mut first = heading(2, "See?");
        first.attrs.push(("id", "see".to_string()));
        first
    });
    assert_eq!(toc.contents.len(), 4);
    let slugs: Vec<&str> = toc.contents.iter().map(|item| item.slug.as_str()).collect();
    assert_eq!(slugs, vec!["see", "lorem", "another-heading", "where-does-it-show-up"]);
    for item in toc.contents.iter() {
        assert_eq!(item.children.len(), 0);
        assert_eq!(item.level, 2);
    }
}

#[test]
fn outline_stands_before_the_node_that_holds_the_first_heading() {
    let mut root = document(vec![
        paragraph("intro"),
        document(vec![paragraph("quoted"), heading(3, "Deep")]),
        heading(2, "Top"),
    ]);
    TableOfContentsDetect::run(&mut root, &TOCOptions::default());
    let (at, toc) = outline_of(&root).unwrap();
    assert_eq!(at, 1);
    assert_eq!(root.children.len(), 4);
    assert_eq!(flat(toc), vec![(0, "Deep".to_string()), (0, "Top".to_string())]);
}

#[test]
fn titles_count_as_headings_found() {
    let mut root = document(vec![heading(1, "Title"), paragraph("text"), heading(2, "Only")]);
    TableOfContentsDetect::run(&mut root, &TOCOptions::default());
    let (at, toc) = outline_of(&root).unwrap();
    assert_eq!(at, 0);
    assert_eq!(flat(toc), vec![(0, "Only".to_string())]);
}

#[test]
fn outline_item_renders_as_nested_lists() {
    let mut first = item(2, "One");
    first.push(item(3, "Two"), 3);
    let mut log = RenderLog::new();
    first.render(&mut log);
    assert_eq!(
        show(&log.ops),
        "cr <li> cr <a href=\"#one\"> text(One) </a> cr <ol> \
         cr <li> cr <a href=\"#two\"> text(Two) </a> cr </li> \
         cr </ol> cr </li>"
    );
}

#[test]
fn outline_renders_inside_nav_with_heading() {
    let toc = TOC::from_headings(records(&[2, 3]), &TOCOptions::default());
    let mut node = document(Vec::new());
    node.attrs.push(("class", "table_of_contents".to_string()));
    let mut log = RenderLog::new();
    log.text("before");
    toc.render(&node, &mut log);
    assert_eq!(
        show(&log.ops),
        "text(before) cr <nav class=\"table_of_contents\"> cr <h2> text(Contents) </h2> cr <ol> \
         cr <li> cr <a href=\"#h0\"> text(h0) </a> cr <ol> \
         cr <li> cr <a href=\"#h1\"> text(h1) </a> cr </li> \
         cr </ol> cr </li> \
         cr </ol> cr </nav> cr"
    );
}

#[test]
fn outline_renders_bare_list_with_class() {
    let mut options = TOCOptions::default();
    options.wrap_in_nav = false;
    options.toc_heading = None;
    let toc = TOC::from_headings(records(&[2]), &options);
    let mut node = document(Vec::new());
    node.attrs.push(("class", "toc".to_string()));
    let mut log = RenderLog::new();
    toc.render(&node, &mut log);
    assert_eq!(
        show(&log.ops),
        "cr <ol class=\"toc\"> cr <li> cr <a href=\"#h0\"> text(h0) </a> cr </li> cr </ol> cr"
    );
}

#[test]
fn outline_heading_level_is_written_in_decimal() {
    let mut options = TOCOptions::default();
    options.wrap_in_nav = false;
    options.toc_heading = Some((12, "Index".to_string()));
    let toc = TOC::from_headings(Vec::new(), &options);
    let mut log = RenderLog::new();
    toc.render(&document(Vec::new()), &mut log);
    assert_eq!(show(&log.ops), "cr <h12> text(Index) </h12> cr <ol> cr </ol> cr");
}

#[test]
fn render_log_records_calls_in_order() {
    let mut log = RenderLog::new();
    assert_eq!(log.ops.len(), 0);
    log.cr();
    log.open("a", &vec![("href", "#x".to_string())]);
    log.text("<t>");
    log.text_raw("&amp;");
    log.contents();
    log.close("a");
    assert_eq!(
        log.ops,
        vec![
            RenderOp::Cr,
            RenderOp::Open { tag: "a".to_string(), attrs: vec![("href", "#x".to_string())] },
            RenderOp::Text { content: "<t>".to_string() },
            RenderOp::TextRaw { content: "&amp;".to_string() },
            RenderOp::Contents,
            RenderOp::Close { tag: "a".to_string() },
        ]
    );
}
