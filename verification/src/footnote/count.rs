//! Numbering the references of each label and totalling them for the
//! definitions.

use crate::footnote::{DefinitionView, FootnoteOptions, ReferenceView};
use crate::markup::{attrs_view, AttrView};
use crate::node::{KindView, Node, NodeKind, NodeView};
use crate::text::{followed_by, decimal, push_decimal, slug_of, sluggify, str_eq};
use vstd::prelude::*;

verus! {

/// Whether a label is `label`.
pub open spec fn is_label(label: Seq<char>) -> spec_fn(Seq<char>) -> bool {
    |other: Seq<char>| other == label
}

/// How often `label` stands in `labels`.
pub open spec fn occurrences(labels: Seq<Seq<char>>, label: Seq<char>) -> nat {
    labels.filter(is_label(label)).len()
}

/// The label of `node` itself where it is a reference, and nothing otherwise.
pub open spec fn own_reference(node: NodeView) -> Seq<Seq<char>> {
    match node.kind {
        KindView::Reference(reference) => seq![reference.label],
        _ => Seq::empty(),
    }
}

/// The labels of the references at and under `node`, in document order.
pub open spec fn references_of(node: NodeView) -> Seq<Seq<char>>
    decreases node, 1int,
{
    own_reference(node) + references_in(node.children)
}

/// The labels of the references at and under `nodes`, in document order.
pub open spec fn references_in(nodes: Seq<NodeView>) -> Seq<Seq<char>>
    decreases nodes, 0int,
{
    if nodes.len() == 0 {
        Seq::empty()
    } else {
        references_in(nodes.drop_last()) + references_of(nodes.last())
    }
}

/// The id of the reference to `label` with the given number.
pub open spec fn reference_id(prefix: Seq<char>, label: Seq<char>, count: nat) -> Seq<char> {
    prefix + "-"@ + slug_of(label) + "-"@ + decimal(count)
}

/// What `node` is once its references are numbered: a reference gets the
/// number of references to its label that `seen` holds, plus one.
pub open spec fn numbered_kind(node: NodeView, seen: Seq<Seq<char>>) -> KindView {
    match node.kind {
        KindView::Reference(reference) => KindView::Reference(
            ReferenceView { count: occurrences(seen, reference.label) + 1, ..reference },
        ),
        kind => kind,
    }
}

/// The attributes of `node` once its references are numbered: a reference
/// gets an `id` attribute, at the end, made of its label and number.
pub open spec fn numbered_attrs(node: NodeView, seen: Seq<Seq<char>>, prefix: Seq<char>) -> Seq<
    AttrView,
> {
    match node.kind {
        KindView::Reference(reference) => node.attrs.push(
            (
                "id"@,
                reference_id(prefix, reference.label, occurrences(seen, reference.label) + 1),
            ),
        ),
        _ => node.attrs,
    }
}

/// The tree at `node` with its references numbered, where `seen` holds the
/// labels of the references that come before `node` in document order.
pub open spec fn numbered(node: NodeView, seen: Seq<Seq<char>>, prefix: Seq<char>) -> NodeView
    decreases node,
{
    NodeView {
        kind: numbered_kind(node, seen),
        attrs: numbered_attrs(node, seen, prefix),
        children: Seq::new(
            node.children.len(),
            |i: int|
                if 0 <= i < node.children.len() {
                    numbered(
                        node.children[i],
                        seen + own_reference(node) + references_in(node.children.take(i)),
                        prefix,
                    )
                } else {
                    arbitrary()
                },
        ),
        origin: node.origin,
    }
}

/// What `node` is once its definitions hold their totals: a definition gets
/// the number of references to its label that `labels` holds.
pub open spec fn totalled_kind(node: NodeView, labels: Seq<Seq<char>>) -> KindView {
    match node.kind {
        KindView::Definition(definition) => KindView::Definition(
            DefinitionView { count: occurrences(labels, definition.id), ..definition },
        ),
        kind => kind,
    }
}

/// The tree at `node` with the total of every definition, where `labels`
/// holds the labels of all references.
pub open spec fn totalled(node: NodeView, labels: Seq<Seq<char>>) -> NodeView
    decreases node,
{
    NodeView {
        kind: totalled_kind(node, labels),
        children: Seq::new(
            node.children.len(),
            |i: int|
                if 0 <= i < node.children.len() {
                    totalled(node.children[i], labels)
                } else {
                    arbitrary()
                },
        ),
        ..node
    }
}

/// The document at `root` after counting: every reference holds which
/// reference to its label it is, counted from 1 in document order, and has
/// an `id` made of its label and that number; every definition holds how
/// many references there are to its label, which may be none.
pub open spec fn counted(root: NodeView, prefix: Seq<char>) -> NodeView {
    totalled(numbered(root, Seq::empty(), prefix), references_of(root))
}

/// The count that a tally holds for `label`: that of the first entry for
/// the label, and 0 where there is none.
pub open spec fn tally_of(entries: Seq<(String, usize)>, label: Seq<char>) -> nat
    decreases entries.len(),
{
    if entries.len() == 0 {
        0
    } else if entries[0].0@ == label {
        entries[0].1 as nat
    } else {
        tally_of(entries.skip(1), label)
    }
}

/// Whether no label has two entries in a tally.
pub open spec fn distinct_labels(entries: Seq<(String, usize)>) -> bool {
    forall|i: int, j: int|
        0 <= i < j < entries.len() ==> (#[trigger] entries[i]).0@ != (#[trigger] entries[j]).0@
}

/// Whether a tally has at most one entry for a label and holds, for every
/// label, how often it stands in `labels`.
pub open spec fn tallies(entries: Seq<(String, usize)>, labels: Seq<Seq<char>>) -> bool {
    &&& distinct_labels(entries)
    &&& forall|label: Seq<char>| #[trigger] tally_of(entries, label) == occurrences(labels, label)
}

proof fn lemma_tally_skips(entries: Seq<(String, usize)>, label: Seq<char>, n: int)
    requires
        0 <= n <= entries.len(),
        forall|j: int| 0 <= j < n ==> entries[j].0@ != label,
    ensures
        tally_of(entries, label) == tally_of(entries.skip(n), label),
    decreases n,
{
    if n == 0 {
        assert(entries.skip(0) =~= entries);
    } else {
        lemma_tally_skips(entries.skip(1), label, n - 1);
        assert(entries.skip(1).skip(n - 1) =~= entries.skip(n));
    }
}

proof fn lemma_tally_update(
    entries: Seq<(String, usize)>,
    at: int,
    entry: (String, usize),
    label: Seq<char>,
)
    requires
        0 <= at < entries.len(),
        entry.0@ == entries[at].0@,
        forall|j: int| 0 <= j < at ==> entries[j].0@ != entry.0@,
    ensures
        tally_of(entries.update(at, entry), label) == if label == entry.0@ {
            entry.1 as nat
        } else {
            tally_of(entries, label)
        },
    decreases at,
{
    let updated = entries.update(at, entry);
    if at == 0 {
        assert(updated.skip(1) =~= entries.skip(1));
    } else {
        lemma_tally_update(entries.skip(1), at - 1, entry, label);
        assert(updated.skip(1) =~= entries.skip(1).update(at - 1, entry));
    }
}

proof fn lemma_tally_push(entries: Seq<(String, usize)>, entry: (String, usize), label: Seq<char>)
    requires
        forall|j: int| 0 <= j < entries.len() ==> entries[j].0@ != entry.0@,
    ensures
        tally_of(entries.push(entry), label) == if label == entry.0@ {
            entry.1 as nat
        } else {
            tally_of(entries, label)
        },
    decreases entries.len(),
{
    let pushed = entries.push(entry);
    if entries.len() == 0 {
        assert(pushed.skip(1) =~= entries);
    } else {
        lemma_tally_push(entries.skip(1), entry, label);
        assert(pushed.skip(1) =~= entries.skip(1).push(entry));
    }
}

/// One more label raises the number of its own occurrences by one and
/// leaves the others.
pub proof fn lemma_occurrences_push(labels: Seq<Seq<char>>, added: Seq<char>, label: Seq<char>)
    ensures
        occurrences(labels.push(added), label) == occurrences(labels, label) + if added == label {
            1nat
        } else {
            0nat
        },
        occurrences(labels, label) <= labels.len(),
{
    Seq::lemma_filter_push(labels, added, is_label(label));
}

/// Counts one more occurrence of `label` and returns how many there are
/// now. The tally keeps at most one entry for a label.
fn bump(tally: &mut Vec<(String, usize)>, label: &str) -> (count: usize)
    requires
        distinct_labels(old(tally)@),
        tally_of(old(tally)@, label@) < usize::MAX,
    ensures
        distinct_labels(final(tally)@),
        count == tally_of(old(tally)@, label@) + 1,
        forall|other: Seq<char>|
            #[trigger] tally_of(final(tally)@, other) == tally_of(old(tally)@, other) + if other
                == label@ {
                1nat
            } else {
                0nat
            },
{
    let mut i: usize = 0;
    while i < tally.len()
        invariant
            i <= tally.len(),
            *tally == *old(tally),
            distinct_labels(tally@),
            tally_of(tally@, label@) < usize::MAX,
            forall|j: int| 0 <= j < i ==> tally[j].0@ != label@,
        decreases tally.len() - i,
    {
        if str_eq(tally[i].0.as_str(), label) {
            proof {
                lemma_tally_skips(tally@, label@, i as int);
            }
            let count = tally[i].1 + 1;
            let mut entry = (String::from_str(label), count);
            core::mem::swap(&mut tally[i], &mut entry);
            proof {
                assert forall|other: Seq<char>| #[trigger]
                    tally_of(tally@, other) == tally_of(old(tally)@, other) + if other == label@ {
                        1nat
                    } else {
                        0nat
                    } by {
                    lemma_tally_update(old(tally)@, i as int, tally[i as int], other);
                }
            }
            return count;
        }
        i += 1;
    }
    proof {
        lemma_tally_skips(tally@, label@, i as int);
    }
    let entry = (String::from_str(label), 1usize);
    tally.push(entry);
    proof {
        assert forall|other: Seq<char>| #[trigger]
            tally_of(tally@, other) == tally_of(old(tally)@, other) + if other == label@ {
                1nat
            } else {
                0nat
            } by {
            lemma_tally_push(old(tally)@, entry, other);
            lemma_tally_skips(old(tally)@, other, 0);
            if other == label@ {
                lemma_tally_skips(old(tally)@, label@, old(tally)@.len() as int);
            }
        }
    }
    1
}

/// The count that the tally holds for `label`.
fn tally_for(tally: &Vec<(String, usize)>, label: &str) -> (count: usize)
    ensures
        count == tally_of(tally@, label@),
{
    let mut i: usize = 0;
    while i < tally.len()
        invariant
            i <= tally.len(),
            forall|j: int| 0 <= j < i ==> tally[j].0@ != label@,
        decreases tally.len() - i,
    {
        if str_eq(tally[i].0.as_str(), label) {
            proof {
                lemma_tally_skips(tally@, label@, i as int);
            }
            return tally[i].1;
        }
        i += 1;
    }
    proof {
        lemma_tally_skips(tally@, label@, i as int);
    }
    0
}

/// The references among the first siblings are among those of all siblings.
pub proof fn lemma_references_in_take(nodes: Seq<NodeView>, n: int)
    requires
        0 <= n <= nodes.len(),
    ensures
        references_in(nodes.take(n)).len() <= references_in(nodes).len(),
    decreases nodes.len(),
{
    if n == nodes.len() {
        assert(nodes.take(n) =~= nodes);
    } else {
        lemma_references_in_take(nodes.drop_last(), n);
        assert(nodes.drop_last().take(n) =~= nodes.take(n));
    }
}

/// The rule that numbers the references and totals them per definition.
pub struct FootnoteCountCoreRule;

impl FootnoteCountCoreRule {
    /// Numbers `node` itself where it is a reference.
    fn number_own(
        node: &mut Node,
        tally: &mut Vec<(String, usize)>,
        prefix: &str,
        Ghost(seen): Ghost<Seq<Seq<char>>>,
    )
        requires
            tallies(old(tally)@, seen),
            seen.len() + own_reference(old(node)@).len() <= usize::MAX,
        ensures
            final(node).kind@ == numbered_kind(old(node)@, seen),
            attrs_view(final(node).attrs@) == numbered_attrs(old(node)@, seen, prefix@),
            final(node).children == old(node).children,
            final(node).origin == old(node).origin,
            tallies(final(tally)@, seen + own_reference(old(node)@)),
    {
        match &mut node.kind {
            NodeKind::Reference(reference) => {
                let ghost label = reference.label@;
                let count = bump(tally, reference.label.as_str());
                reference.count = count;
                let slug = sluggify(reference.label.as_str());
                let mut id = followed_by(prefix, "-");
                id.append(slug.as_str());
                id.append("-");
                push_decimal(&mut id, count);
                node.attrs.push(("id", id));
                proof {
                    assert(seen + own_reference(old(node)@) =~= seen.push(label));
                    assert forall|other: Seq<char>| #[trigger]
                        tally_of(tally@, other) == occurrences(seen.push(label), other) by {
                        lemma_occurrences_push(seen, label, other);
                    }
                }
            },
            _ => {},
        }
    }

    /// Numbers the references at and under `node`, in document order, where
    /// `seen` holds the labels of the references before `node`.
    fn number(
        node: &mut Node,
        tally: &mut Vec<(String, usize)>,
        prefix: &str,
        Ghost(seen): Ghost<Seq<Seq<char>>>,
    )
        requires
            tallies(old(tally)@, seen),
            seen.len() + references_of(old(node)@).len() <= usize::MAX,
        ensures
            final(node)@ == numbered(old(node)@, seen, prefix@),
            tallies(final(tally)@, seen + references_of(old(node)@)),
        decreases *old(node),
    {
        Self::number_own(node, tally, prefix, Ghost(seen));
        let ghost before = old(node)@.children;
        let ghost first = seen + own_reference(old(node)@);
        let ghost kind = node.kind;
        let ghost attrs = node.attrs;
        let n = node.children.len();
        let mut i: usize = 0;
        while i < n
            invariant
                i <= n,
                n == node.children.len(),
                n == old(node).children.len(),
                before == old(node)@.children,
                first == seen + own_reference(old(node)@),
                first.len() + references_in(before).len() <= usize::MAX,
                node.kind == kind,
                node.attrs == attrs,
                node.origin == old(node).origin,
                forall|j: int|
                    0 <= j < i ==> (#[trigger] node.children[j])@ == numbered(
                        before[j],
                        first + references_in(before.take(j)),
                        prefix@,
                    ),
                forall|j: int| i <= j < n ==> #[trigger] node.children[j] == old(node).children[j],
                tallies(tally@, first + references_in(before.take(i as int))),
            decreases n - i,
        {
            let ghost so_far = first + references_in(before.take(i as int));
            proof {
                assert(before.take(i as int + 1).drop_last() =~= before.take(i as int));
                lemma_references_in_take(before, i as int + 1);
            }
            Self::number(&mut node.children[i], tally, prefix, Ghost(so_far));
            i += 1;
        }
        proof {
            assert(before.take(n as int) =~= before);
            assert(node@.children =~= numbered(old(node)@, seen, prefix@).children);
        }
    }

    /// Gives every definition at and under `node` the number of references
    /// to its label.
    fn total(node: &mut Node, tally: &Vec<(String, usize)>, Ghost(labels): Ghost<Seq<Seq<char>>>)
        requires
            tallies(tally@, labels),
        ensures
            final(node)@ == totalled(old(node)@, labels),
        decreases *old(node),
    {
        match &mut node.kind {
            NodeKind::Definition(definition) => {
                definition.count = tally_for(tally, definition.id.as_str());
            },
            _ => {},
        }
        let ghost before = old(node)@.children;
        let ghost kind = node.kind;
        let n = node.children.len();
        let mut i: usize = 0;
        while i < n
            invariant
                i <= n,
                n == node.children.len(),
                n == old(node).children.len(),
                before == old(node)@.children,
                tallies(tally@, labels),
                node.kind == kind,
                node.attrs == old(node).attrs,
                node.origin == old(node).origin,
                forall|j: int| 0 <= j < i ==> (#[trigger] node.children[j])@ == totalled(before[j], labels),
                forall|j: int| i <= j < n ==> #[trigger] node.children[j] == old(node).children[j],
            decreases n - i,
        {
            Self::total(&mut node.children[i], tally, Ghost(labels));
            i += 1;
        }
        proof {
            assert(node@.children =~= totalled(old(node)@, labels).children);
        }
    }

    /// Adds the number of references at and under `node` to `so_far`, as
    /// long as the sum can be held.
    fn add_references(node: &Node, so_far: usize) -> (sum: Option<usize>)
        ensures
            match sum {
                Some(n) => n == so_far + references_of(node@).len(),
                None => so_far + references_of(node@).len() > usize::MAX,
            },
        decreases node,
    {
        let mut sum = so_far;
        match &node.kind {
            NodeKind::Reference(_) => {
                if sum == usize::MAX {
                    return None;
                }
                sum += 1;
            },
            _ => {},
        }
        let ghost first = sum;
        let mut i: usize = 0;
        while i < node.children.len()
            invariant
                i <= node.children.len(),
                first == so_far + own_reference(node@).len(),
                sum == first + references_in(node@.children.take(i as int)).len(),
            decreases node.children.len() - i,
        {
            proof {
                assert(node@.children.take(i as int + 1).drop_last() =~= node@.children.take(
                    i as int,
                ));
                lemma_references_in_take(node@.children, i as int + 1);
            }
            match Self::add_references(&node.children[i], sum) {
                Some(more) => {
                    sum = more;
                },
                None => {
                    return None;
                },
            }
            i += 1;
        }
        assert(node@.children.take(i as int) =~= node@.children);
        Some(sum)
    }

    /// The number of references in the document at `root`, where it can be
    /// held.
    pub fn reference_total(root: &Node) -> (total: Option<usize>)
        ensures
            match total {
                Some(n) => n == references_of(root@).len(),
                None => references_of(root@).len() > usize::MAX,
            },
    {
        Self::add_references(root, 0)
    }

    /// Counts the footnotes of the document at `root` as `run` does, where
    /// the references are few enough to be numbered; otherwise the document
    /// stays as it is. Returns whether the footnotes were counted.
    pub fn run_checked(root: &mut Node, options: &FootnoteOptions) -> (done: bool)
        ensures
            done == (references_of(old(root)@).len() <= usize::MAX),
            done ==> final(root)@ == counted(old(root)@, options.fn_ref_id_pref@),
            !done ==> *final(root) == *old(root),
    {
        match Self::reference_total(root) {
            Some(_) => {
                Self::run(root, options);
                true
            },
            None => false,
        }
    }

    /// Counts the footnotes of the document at `root`: numbers the
    /// references per label in document order, gives each an `id`, and then
    /// gives every definition the number of references to its label.
    pub fn run(root: &mut Node, options: &FootnoteOptions)
        requires
            references_of(old(root)@).len() <= usize::MAX,
        ensures
            final(root)@ == counted(old(root)@, options.fn_ref_id_pref@),
    {
        let mut counts: Vec<(String, usize)> = Vec::new();
        let ghost none = Seq::<Seq<char>>::empty();
        Self::number(root, &mut counts, options.fn_ref_id_pref.as_str(), Ghost(none));
        Self::total(root, &counts, Ghost(references_of(old(root)@)));
    }
}

} // verus!
