//! The rule that collects the headings of a document, identifies them and
//! places the outline in the tree.

use crate::markup::{attrs_view, AttrView};
use crate::node::{attr_value, find_attr, text_of, KindView, Node, NodeKind, NodeView};
use crate::text::{slug_of, sluggify};
use crate::toc::headings::{headings_view, outline_of, Heading, HeadingView};
use crate::toc::{OutlineView, TOCOptions, TOC};
use vstd::prelude::*;

verus! {

/// The identifier of a heading: its first `id` attribute where it has one,
/// otherwise the slug of its text.
pub open spec fn heading_slug(node: NodeView) -> Seq<char> {
    match attr_value(node.attrs, "id"@) {
        Some(id) => id,
        None => slug_of(text_of(node)),
    }
}

/// The record of `node` itself where it is a heading, and nothing otherwise.
pub open spec fn own_heading(node: NodeView) -> Seq<HeadingView> {
    match node.kind {
        KindView::Heading { level } => seq![
            HeadingView { level, title: text_of(node), slug: heading_slug(node) },
        ],
        _ => Seq::empty(),
    }
}

/// The records of the headings at and under `node`, in document order.
pub open spec fn headings_of(node: NodeView) -> Seq<HeadingView>
    decreases node, 1int,
{
    own_heading(node) + headings_in(node.children)
}

/// The records of the headings at and under `nodes`, in document order.
pub open spec fn headings_in(nodes: Seq<NodeView>) -> Seq<HeadingView>
    decreases nodes, 0int,
{
    if nodes.len() == 0 {
        Seq::empty()
    } else {
        headings_in(nodes.drop_last()) + headings_of(nodes.last())
    }
}

/// The attributes of `node` once it is identified: a heading without an `id`
/// attribute gets one, at the end, that holds the slug of its text.
pub open spec fn identified_attrs(node: NodeView) -> Seq<AttrView> {
    if node.kind is Heading && attr_value(node.attrs, "id"@) is None {
        node.attrs.push(("id"@, slug_of(text_of(node))))
    } else {
        node.attrs
    }
}

/// The tree at `node` with every heading identified. Nothing else changes.
pub open spec fn identified(node: NodeView) -> NodeView
    decreases node,
{
    NodeView {
        attrs: identified_attrs(node),
        children: Seq::new(
            node.children.len(),
            |i: int|
                if 0 <= i < node.children.len() {
                    identified(node.children[i])
                } else {
                    arbitrary()
                },
        ),
        ..node
    }
}

/// The index of the first of `nodes` that is or holds a heading.
pub open spec fn first_heading_child(nodes: Seq<NodeView>) -> Option<int>
    decreases nodes.len(),
{
    if nodes.len() == 0 {
        None
    } else {
        match first_heading_child(nodes.drop_last()) {
            Some(i) => Some(i),
            None => if headings_of(nodes.last()).len() > 0 {
                Some(nodes.len() - 1)
            } else {
                None
            },
        }
    }
}

/// The node that carries an outline into the tree.
pub open spec fn outline_node(toc: OutlineView, class: Seq<char>) -> NodeView {
    NodeView {
        kind: KindView::Outline(toc),
        attrs: seq![("class"@, class)],
        children: Seq::empty(),
        origin: None,
    }
}

/// The document at `root` after the outline rule has run. Every heading is
/// identified. Where the document has two headings or more, the outline of
/// all its headings is inserted among the children of the root, in front of
/// the first child that is or holds a heading.
pub open spec fn with_outline(root: NodeView, options: TOCOptions) -> NodeView {
    let marked = identified(root);
    if headings_of(root).len() < 2 {
        marked
    } else {
        match first_heading_child(root.children) {
            Some(i) => NodeView {
                children: marked.children.insert(
                    i,
                    outline_node(outline_of(headings_of(root), options), options.toc_class@),
                ),
                ..marked
            },
            None => marked,
        }
    }
}

/// The rule that collects the headings and places the outline.
pub struct TableOfContentsDetect;

impl TableOfContentsDetect {
    /// Records `node` where it is a heading, and gives it an `id` attribute
    /// where it has none.
    fn note_heading(node: &mut Node, headings: &mut Vec<Heading>)
        ensures
            final(node).kind == old(node).kind,
            final(node).children == old(node).children,
            final(node).origin == old(node).origin,
            attrs_view(final(node).attrs@) == identified_attrs(old(node)@),
            headings_view(final(headings)@) == headings_view(old(headings)@) + own_heading(
                old(node)@,
            ),
    {
        let level = match &node.kind {
            NodeKind::Heading { level } => *level,
            _ => {
                return ;
            },
        };
        let title = node.collect_text();
        let slug = match find_attr(&node.attrs, "id") {
            Some(i) => node.attrs[i].1.clone(),
            None => {
                let slug = sluggify(title.as_str());
                node.attrs.push(("id", slug.clone()));
                slug
            },
        };
        let heading = Heading { title, slug, level };
        headings.push(heading);
    }

    /// Records the headings at and under `node`, in document order, and
    /// identifies each of them.
    pub fn collect(node: &mut Node, headings: &mut Vec<Heading>)
        ensures
            final(node)@ == identified(old(node)@),
            headings_view(final(headings)@) == headings_view(old(headings)@) + headings_of(
                old(node)@,
            ),
        decreases *old(node),
    {
        Self::note_heading(node, headings);
        let ghost before = old(node)@.children;
        let ghost own = headings_view(headings@);
        let ghost kind = node.kind;
        let ghost attrs = node.attrs;
        let n = node.children.len();
        let mut i: usize = 0;
        while i < n
            invariant
                i <= n,
                n == node.children.len(),
                n == old(node).children.len(),
                before == old(node)@.children,
                node.kind == kind,
                node.attrs == attrs,
                node.origin == old(node).origin,
                forall|j: int| 0 <= j < i ==> (#[trigger] node.children[j])@ == identified(before[j]),
                forall|j: int| i <= j < n ==> #[trigger] node.children[j] == old(node).children[j],
                headings_view(headings@) == own + headings_in(before.take(i as int)),
            decreases n - i,
        {
            proof {
                assert(before.take(i as int + 1).drop_last() =~= before.take(i as int));
            }
            Self::collect(&mut node.children[i], headings);
            i += 1;
        }
        proof {
            assert(before.take(n as int) =~= before);
            assert(node@.children =~= identified(old(node)@).children);
        }
    }

    /// Collects the headings of the document at `root`, gives each heading an
    /// `id` attribute where it has none, and, where there are two headings or
    /// more, inserts the outline in front of the first top-level node that is
    /// or holds a heading. With fewer headings nothing is inserted.
    pub fn run(root: &mut Node, options: &TOCOptions)
        ensures
            final(root)@ == with_outline(old(root)@, *options),
            headings_of(old(root)@).len() < 2 ==> final(root)@.children.len() == old(
                root,
            )@.children.len(),
    {
        let mut headings: Vec<Heading> = Vec::new();
        Self::note_heading(root, &mut headings);
        let ghost before = old(root)@.children;
        let ghost own = headings_view(headings@);
        let ghost kind = root.kind;
        let ghost attrs = root.attrs;
        let n = root.children.len();
        let mut first: Option<usize> = None;
        let mut i: usize = 0;
        while i < n
            invariant
                i <= n,
                n == root.children.len(),
                n == old(root).children.len(),
                before == old(root)@.children,
                root.kind == kind,
                root.attrs == attrs,
                root.origin == old(root).origin,
                forall|j: int| 0 <= j < i ==> (#[trigger] root.children[j])@ == identified(before[j]),
                forall|j: int| i <= j < n ==> #[trigger] root.children[j] == old(root).children[j],
                headings_view(headings@) == own + headings_in(before.take(i as int)),
                match first {
                    Some(at) => first_heading_child(before.take(i as int)) == Some(at as int)
                        && at < i,
                    None => first_heading_child(before.take(i as int)) is None,
                },
            decreases n - i,
        {
            proof {
                assert(before.take(i as int + 1).drop_last() =~= before.take(i as int));
            }
            let found = headings.len();
            Self::collect(&mut root.children[i], &mut headings);
            if first.is_none() && headings.len() > found {
                first = Some(i);
            }
            i += 1;
        }
        proof {
            assert(before.take(n as int) =~= before);
            assert(root@.children =~= identified(old(root)@).children);
        }
        if headings.len() < 2 {
            return ;
        }
        let toc = TOC::from_headings(headings, options);
        let mut table_of_contents = Node::new(NodeKind::Outline(toc));
        table_of_contents.attrs.push(("class", options.toc_class.clone()));
        proof {
            assert(table_of_contents@.attrs =~= seq![("class"@, options.toc_class@)]);
        }
        match first {
            Some(at) => {
                let ghost marked = root@.children;
                root.children.insert(at, table_of_contents);
                assert(root@.children =~= marked.insert(at as int, table_of_contents@));
            },
            None => {},
        }
    }
}

} // verus!
