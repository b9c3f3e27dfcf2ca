//! The references and definitions of a document listed in document order,
//! and what counting does to the two lists.

use crate::footnote::count::{
    counted, numbered, occurrences, own_reference, references_in, references_of, totalled,
};
use crate::footnote::{DefinitionView, ReferenceView};
use crate::node::{KindView, NodeView};
use vstd::prelude::*;

verus! {

/// `node` itself where it is a reference, and nothing otherwise.
pub open spec fn own_reference_node(node: NodeView) -> Seq<ReferenceView> {
    match node.kind {
        KindView::Reference(reference) => seq![reference],
        _ => Seq::empty(),
    }
}

/// The references at and under `node`, in document order.
pub open spec fn reference_nodes_of(node: NodeView) -> Seq<ReferenceView>
    decreases node, 1int,
{
    own_reference_node(node) + reference_nodes_in(node.children)
}

/// The references at and under `nodes`, in document order.
pub open spec fn reference_nodes_in(nodes: Seq<NodeView>) -> Seq<ReferenceView>
    decreases nodes, 0int,
{
    if nodes.len() == 0 {
        Seq::empty()
    } else {
        reference_nodes_in(nodes.drop_last()) + reference_nodes_of(nodes.last())
    }
}

/// `node` itself where it is a definition, and nothing otherwise.
pub open spec fn own_definition_node(node: NodeView) -> Seq<DefinitionView> {
    match node.kind {
        KindView::Definition(definition) => seq![definition],
        _ => Seq::empty(),
    }
}

/// The definitions at and under `node`, in document order.
pub open spec fn definition_nodes_of(node: NodeView) -> Seq<DefinitionView>
    decreases node, 1int,
{
    own_definition_node(node) + definition_nodes_in(node.children)
}

/// The definitions at and under `nodes`, in document order.
pub open spec fn definition_nodes_in(nodes: Seq<NodeView>) -> Seq<DefinitionView>
    decreases nodes, 0int,
{
    if nodes.len() == 0 {
        Seq::empty()
    } else {
        definition_nodes_in(nodes.drop_last()) + definition_nodes_of(nodes.last())
    }
}

/// References to `labels`, in order, each with its number: one more than
/// the number of references to the same label before it, where `seen` holds
/// the labels that came before all of them.
pub open spec fn numbering(labels: Seq<Seq<char>>, seen: Seq<Seq<char>>) -> Seq<ReferenceView> {
    Seq::new(
        labels.len(),
        |i: int|
            ReferenceView {
                label: labels[i],
                count: occurrences(seen + labels.take(i), labels[i]) + 1,
            },
    )
}

/// The definitions `definitions`, each with the number of references to its
/// label among `labels` as its count.
pub open spec fn with_totals(definitions: Seq<DefinitionView>, labels: Seq<Seq<char>>) -> Seq<
    DefinitionView,
> {
    Seq::new(
        definitions.len(),
        |i: int|
            DefinitionView {
                count: occurrences(labels, definitions[i].id),
                ..definitions[i]
            },
    )
}

proof fn lemma_numbering_add(a: Seq<Seq<char>>, b: Seq<Seq<char>>, seen: Seq<Seq<char>>)
    ensures
        numbering(a + b, seen) == numbering(a, seen) + numbering(b, seen + a),
{
    let whole = numbering(a + b, seen);
    let parts = numbering(a, seen) + numbering(b, seen + a);
    assert forall|i: int| 0 <= i < whole.len() implies whole[i] == parts[i] by {
        if i < a.len() {
            assert((a + b).take(i) =~= a.take(i));
        } else {
            assert(seen + (a + b).take(i) =~= (seen + a) + b.take(i - a.len()));
        }
    }
}

proof fn lemma_with_totals_add(a: Seq<DefinitionView>, b: Seq<DefinitionView>, labels: Seq<Seq<char>>)
    ensures
        with_totals(a + b, labels) == with_totals(a, labels) + with_totals(b, labels),
{
}

proof fn lemma_numbered_nodes(node: NodeView, seen: Seq<Seq<char>>, prefix: Seq<char>)
    ensures
        reference_nodes_of(numbered(node, seen, prefix)) == numbering(references_of(node), seen),
        definition_nodes_of(numbered(node, seen, prefix)) == definition_nodes_of(node),
    decreases node, 1int,
{
    let after = numbered(node, seen, prefix);
    let own = own_reference(node);
    lemma_numbered_nodes_in(node.children, after.children, seen + own, prefix);
    lemma_numbering_add(own, references_in(node.children), seen);
}

proof fn lemma_numbered_nodes_in(
    nodes: Seq<NodeView>,
    after: Seq<NodeView>,
    seen: Seq<Seq<char>>,
    prefix: Seq<char>,
)
    requires
        after.len() == nodes.len(),
        forall|i: int|
            0 <= i < nodes.len() ==> #[trigger] after[i] == numbered(
                nodes[i],
                seen + references_in(nodes.take(i)),
                prefix,
            ),
    ensures
        reference_nodes_in(after) == numbering(references_in(nodes), seen),
        definition_nodes_in(after) == definition_nodes_in(nodes),
    decreases nodes, 0int,
{
    if nodes.len() > 0 {
        let n = nodes.len() - 1;
        assert forall|i: int| 0 <= i < n implies #[trigger] after.drop_last()[i] == numbered(
            nodes.drop_last()[i],
            seen + references_in(nodes.drop_last().take(i)),
            prefix,
        ) by {
            assert(nodes.drop_last().take(i) =~= nodes.take(i));
        }
        lemma_numbered_nodes_in(nodes.drop_last(), after.drop_last(), seen, prefix);
        lemma_numbered_nodes(nodes.last(), seen + references_in(nodes.drop_last()), prefix);
        lemma_numbering_add(references_in(nodes.drop_last()), references_of(nodes.last()), seen);
    }
}

proof fn lemma_totalled_nodes(node: NodeView, labels: Seq<Seq<char>>)
    ensures
        reference_nodes_of(totalled(node, labels)) == reference_nodes_of(node),
        definition_nodes_of(totalled(node, labels)) == with_totals(
            definition_nodes_of(node),
            labels,
        ),
    decreases node, 1int,
{
    let after = totalled(node, labels);
    lemma_totalled_nodes_in(node.children, after.children, labels);
    lemma_with_totals_add(own_definition_node(node), definition_nodes_in(node.children), labels);
}

proof fn lemma_totalled_nodes_in(nodes: Seq<NodeView>, after: Seq<NodeView>, labels: Seq<Seq<char>>)
    requires
        after.len() == nodes.len(),
        forall|i: int| 0 <= i < nodes.len() ==> #[trigger] after[i] == totalled(nodes[i], labels),
    ensures
        reference_nodes_in(after) == reference_nodes_in(nodes),
        definition_nodes_in(after) == with_totals(definition_nodes_in(nodes), labels),
    decreases nodes, 0int,
{
    if nodes.len() > 0 {
        lemma_totalled_nodes_in(nodes.drop_last(), after.drop_last(), labels);
        lemma_totalled_nodes(nodes.last(), labels);
        lemma_with_totals_add(
            definition_nodes_in(nodes.drop_last()),
            definition_nodes_of(nodes.last()),
            labels,
        );
    }
}

/// After counting, the references of the document are those it had, in the
/// same order, and each holds one more than the number of references to the
/// same label before it: the first reference to a label holds 1, the second
/// 2, and so on. The definitions are those it had, in the same order, and
/// each holds the number of all references to its label.
pub proof fn lemma_counted_numbers(root: NodeView, prefix: Seq<char>)
    ensures
        reference_nodes_of(counted(root, prefix)).len() == references_of(root).len(),
        forall|i: int|
            0 <= i < references_of(root).len() ==> {
                let reference = #[trigger] reference_nodes_of(counted(root, prefix))[i];
                let labels = references_of(root);
                reference.label == labels[i] && reference.count == occurrences(
                    labels.take(i),
                    labels[i],
                ) + 1
            },
        definition_nodes_of(counted(root, prefix)).len() == definition_nodes_of(root).len(),
        forall|i: int|
            0 <= i < definition_nodes_of(root).len() ==> {
                let definition = #[trigger] definition_nodes_of(counted(root, prefix))[i];
                definition.id == definition_nodes_of(root)[i].id && definition.count
                    == occurrences(references_of(root), definition.id)
            },
{
    let none = Seq::<Seq<char>>::empty();
    let labels = references_of(root);
    lemma_numbered_nodes(root, none, prefix);
    lemma_totalled_nodes(numbered(root, none, prefix), labels);
}

} // verus!
