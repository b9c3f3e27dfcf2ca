//! The document tree that the passes read and rewrite.

use crate::footnote::{DefinitionView, FootnoteDefinition, FootnoteList, FootnoteReference, ReferenceView};
use crate::latex::LaTeXNode;
use crate::markup::{attrs_view, Attr, AttrView};
use crate::text::str_eq;
use crate::toc::{OutlineView, TOC};
use vstd::prelude::*;

verus! {

/// What a node is.
#[derive(Debug, PartialEq, Eq)]
pub enum NodeKind {
    /// A heading of the given level.
    Heading { level: u8 },
    /// A run of text.
    Text { content: String },
    /// A footnote reference.
    Reference(FootnoteReference),
    /// A footnote definition.
    Definition(FootnoteDefinition),
    /// A list of footnote definitions.
    List(FootnoteList),
    /// The outline of the document.
    Outline(TOC),
    /// A formula.
    Formula(LaTeXNode),
    /// A position that the grouping of definitions has emptied and will
    /// remove.
    Placeholder,
    /// Anything that the passes carry along without looking into it.
    Opaque,
}

/// An element of the document tree. It owns its children.
#[derive(Debug, PartialEq, Eq)]
pub struct Node {
    pub kind: NodeKind,
    /// Attributes for the rendered element, in order; keys may repeat.
    pub attrs: Vec<Attr>,
    pub children: Vec<Node>,
    /// What the host parser knows the node by, for a node that came from it.
    pub origin: Option<usize>,
}

/// What a node is, as plain values.
pub enum KindView {
    Heading { level: u8 },
    Text { content: Seq<char> },
    Reference(ReferenceView),
    Definition(DefinitionView),
    List { group: nat },
    Outline(OutlineView),
    Formula { latex: Seq<char>, inline: bool },
    Placeholder,
    Opaque,
}

/// A node as plain values.
pub struct NodeView {
    pub kind: KindView,
    pub attrs: Seq<AttrView>,
    pub children: Seq<NodeView>,
    pub origin: Option<usize>,
}

impl View for NodeKind {
    type V = KindView;

    open spec fn view(&self) -> KindView {
        match *self {
            NodeKind::Heading { level } => KindView::Heading { level },
            NodeKind::Text { content } => KindView::Text { content: content@ },
            NodeKind::Reference(reference) => KindView::Reference(reference@),
            NodeKind::Definition(definition) => KindView::Definition(definition@),
            NodeKind::List(list) => KindView::List { group: list.0 as nat },
            NodeKind::Outline(toc) => KindView::Outline(toc@),
            NodeKind::Formula(formula) => KindView::Formula {
                latex: formula.latex@,
                inline: formula.inline,
            },
            NodeKind::Placeholder => KindView::Placeholder,
            NodeKind::Opaque => KindView::Opaque,
        }
    }
}

/// The plain value of a node and of everything under it.
pub open spec fn node_view(node: Node) -> NodeView
    decreases node,
{
    NodeView {
        kind: node.kind@,
        attrs: attrs_view(node.attrs@),
        children: Seq::new(
            node.children.len() as nat,
            |i: int|
                if 0 <= i < node.children.len() {
                    node_view(node.children[i])
                } else {
                    arbitrary()
                },
        ),
        origin: node.origin,
    }
}

impl View for Node {
    type V = NodeView;

    open spec fn view(&self) -> NodeView {
        node_view(*self)
    }
}

/// The plain values of a list of nodes.
pub open spec fn nodes_view(nodes: Seq<Node>) -> Seq<NodeView> {
    Seq::new(nodes.len(), |i: int| nodes[i]@)
}

impl Node {
    /// A node of the given kind without attributes or children, made by a
    /// pass rather than by the host parser.
    pub fn new(kind: NodeKind) -> (node: Node)
        ensures
            node@ == (NodeView {
                kind: kind@,
                attrs: Seq::empty(),
                children: Seq::empty(),
                origin: None,
            }),
    {
        let node = Node { kind, attrs: Vec::new(), children: Vec::new(), origin: None };
        assert(node@.attrs =~= Seq::empty());
        assert(node@.children =~= Seq::empty());
        node
    }
}

/// The text of all text nodes at and under `node`, in document order.
pub open spec fn text_of(node: NodeView) -> Seq<char>
    decreases node, 1int,
{
    (match node.kind {
        KindView::Text { content } => content,
        _ => Seq::empty(),
    }) + texts_of(node.children)
}

/// The text of all text nodes at and under `nodes`, in document order.
pub open spec fn texts_of(nodes: Seq<NodeView>) -> Seq<char>
    decreases nodes, 0int,
{
    if nodes.len() == 0 {
        Seq::empty()
    } else {
        texts_of(nodes.drop_last()) + text_of(nodes.last())
    }
}

/// The value of the first attribute named `key`, if there is one.
pub open spec fn attr_value(attrs: Seq<AttrView>, key: Seq<char>) -> Option<Seq<char>>
    decreases attrs.len(),
{
    if attrs.len() == 0 {
        None
    } else if attrs[0].0 == key {
        Some(attrs[0].1)
    } else {
        attr_value(attrs.skip(1), key)
    }
}

/// Attributes under other names at the front do not change the lookup.
pub proof fn lemma_attr_value_skips(attrs: Seq<AttrView>, key: Seq<char>, n: int)
    requires
        0 <= n <= attrs.len(),
        forall|j: int| 0 <= j < n ==> attrs[j].0 != key,
    ensures
        attr_value(attrs, key) == attr_value(attrs.skip(n), key),
    decreases n,
{
    if n == 0 {
        assert(attrs.skip(0) =~= attrs);
    } else {
        lemma_attr_value_skips(attrs.skip(1), key, n - 1);
        assert(attrs.skip(1).skip(n - 1) =~= attrs.skip(n));
    }
}

/// Where the first attribute named `key` stands.
pub fn find_attr(attrs: &Vec<Attr>, key: &str) -> (found: Option<usize>)
    ensures
        match found {
            Some(i) => i < attrs.len() && attr_value(attrs_view(attrs@), key@) == Some(
                attrs[i as int].1@,
            ),
            None => attr_value(attrs_view(attrs@), key@) is None,
        },
{
    let mut i: usize = 0;
    while i < attrs.len()
        invariant
            i <= attrs.len(),
            forall|j: int| 0 <= j < i ==> attrs_view(attrs@)[j].0 != key@,
        decreases attrs.len() - i,
    {
        if str_eq(attrs[i].0, key) {
            proof {
                lemma_attr_value_skips(attrs_view(attrs@), key@, i as int);
            }
            return Some(i);
        }
        i += 1;
    }
    proof {
        lemma_attr_value_skips(attrs_view(attrs@), key@, i as int);
    }
    None
}

impl Node {
    /// Appends the text of all text nodes at and under this node to `out`.
    pub fn push_text(&self, out: &mut String)
        ensures
            final(out)@ == old(out)@ + text_of(self@),
        decreases self,
    {
        match &self.kind {
            NodeKind::Text { content } => {
                out.append(content.as_str());
            },
            _ => {},
        }
        let ghost own = out@;
        let mut i: usize = 0;
        while i < self.children.len()
            invariant
                i <= self.children.len(),
                out@ == own + texts_of(self@.children.take(i as int)),
            decreases self.children.len() - i,
        {
            proof {
                let seen = self@.children.take(i as int + 1);
                assert(seen.drop_last() =~= self@.children.take(i as int));
            }
            self.children[i].push_text(out);
            i += 1;
        }
        assert(self@.children.take(i as int) =~= self@.children);
    }

    /// The text of all text nodes at and under this node, in document order.
    pub fn collect_text(&self) -> (text: String)
        ensures
            text@ == text_of(self@),
    {
        let mut text = String::new();
        self.push_text(&mut text);
        text
    }
}

} // verus!
