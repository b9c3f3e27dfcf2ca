//! Grouping adjacent definitions into lists: mark, compact, merge.

use crate::footnote::runs::{
    clash_free, lasting_count, lemma_grouped_counts, lemma_grouped_is_regrouped,
    lemma_grouped_settled, regrouped, run_count, settled,
};
use crate::footnote::{FootnoteList, FootnoteOptions};
use crate::node::{nodes_view, KindView, Node, NodeKind, NodeView};
use vstd::prelude::*;

verus! {

/// Whether a node is a footnote definition.
pub open spec fn is_definition(node: NodeView) -> bool {
    node.kind is Definition
}

/// The empty list that takes the place of the first definition of a run.
pub open spec fn list_node(group: nat, class: Seq<char>) -> NodeView {
    NodeView {
        kind: KindView::List { group },
        attrs: seq![("class"@, class)],
        children: Seq::empty(),
        origin: None,
    }
}

/// The marker that takes the place of every other definition of a run.
pub open spec fn placeholder_node(class: Seq<char>) -> NodeView {
    NodeView {
        kind: KindView::Placeholder,
        attrs: seq![("class"@, class)],
        children: Seq::empty(),
        origin: None,
    }
}

/// The siblings `nodes` after the mark phase, where `seen` siblings that are
/// no definitions came before them and `in_run` says whether the sibling
/// just before them is a definition. Walking in order, the open index is the
/// number of siblings seen so far that are no definitions. A definition that
/// starts a run becomes an empty list with the open index as its group; a
/// definition that continues a run becomes a placeholder; any other node
/// stays.
pub open spec fn marked_from(nodes: Seq<NodeView>, seen: nat, in_run: bool, class: Seq<char>) -> Seq<
    NodeView,
>
    decreases nodes.len(),
{
    if nodes.len() == 0 {
        Seq::empty()
    } else if is_definition(nodes[0]) {
        seq![
            if in_run {
                placeholder_node(class)
            } else {
                list_node(seen, class)
            },
        ] + marked_from(nodes.skip(1), seen, true, class)
    } else {
        seq![nodes[0]] + marked_from(nodes.skip(1), seen + 1, false, class)
    }
}

/// The definitions among the siblings `nodes`, in order, each with the open
/// index under which the mark phase collects it.
pub open spec fn collected_from(nodes: Seq<NodeView>, seen: nat) -> Seq<(nat, NodeView)>
    decreases nodes.len(),
{
    if nodes.len() == 0 {
        Seq::empty()
    } else if is_definition(nodes[0]) {
        seq![(seen, nodes[0])] + collected_from(nodes.skip(1), seen)
    } else {
        collected_from(nodes.skip(1), seen + 1)
    }
}

/// The siblings without the placeholders.
pub open spec fn compacted(nodes: Seq<NodeView>) -> Seq<NodeView> {
    nodes.filter(|node: NodeView| !(node.kind is Placeholder))
}

/// Whether a collected definition belongs to `group`.
pub open spec fn in_group(group: nat) -> spec_fn((nat, NodeView)) -> bool {
    |entry: (nat, NodeView)| entry.0 == group
}

/// Whether a collected definition belongs to another group than `group`.
pub open spec fn out_of_group(group: nat) -> spec_fn((nat, NodeView)) -> bool {
    |entry: (nat, NodeView)| entry.0 != group
}

/// The collected definitions of one group, in order.
pub open spec fn group_members(collected: Seq<(nat, NodeView)>, group: nat) -> Seq<NodeView> {
    collected.filter(in_group(group)).map_values(|entry: (nat, NodeView)| entry.1)
}

/// The collected definitions of all other groups, in order.
pub open spec fn group_others(collected: Seq<(nat, NodeView)>, group: nat) -> Seq<(nat, NodeView)> {
    collected.filter(out_of_group(group))
}

/// One more collected definition joins its own group and no other.
pub proof fn lemma_group_push(collected: Seq<(nat, NodeView)>, added: (nat, NodeView), group: nat)
    ensures
        group_members(collected.push(added), group) == if added.0 == group {
            group_members(collected, group).push(added.1)
        } else {
            group_members(collected, group)
        },
        group_others(collected.push(added), group) == if added.0 == group {
            group_others(collected, group)
        } else {
            group_others(collected, group).push(added)
        },
{
    Seq::lemma_filter_push(collected, added, in_group(group));
    Seq::lemma_filter_push(collected, added, out_of_group(group));
}

/// The siblings after the merge phase. Walking in order, each list takes, at
/// the end of its children, the definitions still at hand that were
/// collected under its group; a definition goes to one list only.
pub open spec fn merged(nodes: Seq<NodeView>, collected: Seq<(nat, NodeView)>) -> Seq<NodeView>
    decreases nodes.len(),
{
    if nodes.len() == 0 {
        Seq::empty()
    } else {
        match nodes[0].kind {
            KindView::List { group } => seq![
                NodeView {
                    children: nodes[0].children + group_members(collected, group),
                    ..nodes[0]
                },
            ] + merged(nodes.skip(1), group_others(collected, group)),
            _ => seq![nodes[0]] + merged(nodes.skip(1), collected),
        }
    }
}

/// The siblings after grouping: marked, compacted, then merged with the
/// definitions that the mark phase collected.
pub open spec fn grouped(nodes: Seq<NodeView>, class: Seq<char>) -> Seq<NodeView> {
    merged(compacted(marked_from(nodes, 0, false, class)), collected_from(nodes, 0))
}

/// The plain values of collected definitions.
pub open spec fn collected_view(collected: Seq<(usize, Node)>) -> Seq<(nat, NodeView)> {
    Seq::new(collected.len(), |i: int| (collected[i].0 as nat, collected[i].1@))
}

/// The rule that groups adjacent definitions into lists.
pub struct FootnoteGroupCoreRule;

impl FootnoteGroupCoreRule {
    /// The mark phase: replaces every definition among `children` in place,
    /// by a new list where it starts a run and by a placeholder where it
    /// continues one, and hands the definitions out, each with its open index.
    pub fn mark(children: &mut Vec<Node>, class: &str) -> (collected: Vec<(usize, Node)>)
        ensures
            nodes_view(final(children)@) == marked_from(nodes_view(old(children)@), 0, false, class@),
            collected_view(collected@) == collected_from(nodes_view(old(children)@), 0),
    {
        let ghost before = nodes_view(children@);
        let mut collected: Vec<(usize, Node)> = Vec::new();
        let mut index: usize = 0;
        let mut in_run = false;
        let n = children.len();
        let mut i: usize = 0;
        assert(before.skip(0) =~= before);
        while i < n
            invariant
                i <= n,
                n == children.len(),
                n == before.len(),
                index <= i,
                forall|j: int| i <= j < n ==> (#[trigger] children[j])@ == before[j],
                nodes_view(children@).take(i as int) + marked_from(
                    before.skip(i as int),
                    index as nat,
                    in_run,
                    class@,
                ) == marked_from(before, 0, false, class@),
                collected_view(collected@) + collected_from(before.skip(i as int), index as nat)
                    == collected_from(before, 0),
            decreases n - i,
        {
            let ghost rest = before.skip(i as int);
            proof {
                assert(rest.skip(1) =~= before.skip(i as int + 1));
            }
            let is_def = match &children[i].kind {
                NodeKind::Definition(_) => true,
                _ => false,
            };
            if is_def {
                let mut replaced = if in_run {
                    Node::new(NodeKind::Placeholder)
                } else {
                    Node::new(NodeKind::List(FootnoteList(index)))
                };
                replaced.attrs.push(("class", String::from_str(class)));
                proof {
                    assert(replaced@.attrs =~= seq![("class"@, class@)]);
                }
                core::mem::swap(&mut children[i], &mut replaced);
                collected.push((index, replaced));
                in_run = true;
            } else {
                index += 1;
                in_run = false;
            }
            i += 1;
        }
        collected
    }

    /// The compact phase: removes every placeholder from `children` and
    /// closes the gaps.
    pub fn compact(children: &mut Vec<Node>)
        ensures
            nodes_view(final(children)@) == compacted(nodes_view(old(children)@)),
    {
        let mut all: Vec<Node> = Vec::new();
        core::mem::swap(children, &mut all);
        let ghost before = nodes_view(all@);
        let ghost nodes = all@;
        for node in it: all
            invariant
                it.seq() == nodes,
                before == nodes_view(nodes),
                nodes_view(children@) == compacted(before.take(it.index())),
        {
            let stays = match &node.kind {
                NodeKind::Placeholder => false,
                _ => true,
            };
            proof {
                let seen = before.take(it.index());
                assert(before.take(it.index() + 1) =~= seen.push(node@));
                Seq::lemma_filter_push(seen, node@, |node: NodeView| !(node.kind is Placeholder));
            }
            if stays {
                children.push(node);
            }
        }
        assert(before.take(before.len() as int) =~= before);
    }

    /// Moves the definitions collected under `group` to the end of `into`,
    /// in order, and hands the others back.
    fn take_group(into: &mut Vec<Node>, collected: Vec<(usize, Node)>, group: usize) -> (rest: Vec<
        (usize, Node),
    >)
        ensures
            nodes_view(final(into)@) == nodes_view(old(into)@) + group_members(
                collected_view(collected@),
                group as nat,
            ),
            collected_view(rest@) == group_others(collected_view(collected@), group as nat),
    {
        let ghost all = collected_view(collected@);
        let ghost entries = collected@;
        let ghost had = nodes_view(into@);
        let mut rest: Vec<(usize, Node)> = Vec::new();
        proof {
            all.take(0).lemma_filter_len(in_group(group as nat));
            all.take(0).lemma_filter_len(out_of_group(group as nat));
        }
        let ghost g = group as nat;
        for entry in it: collected
            invariant
                it.seq() == entries,
                all == collected_view(entries),
                g == group as nat,
                nodes_view(into@) == had + group_members(all.take(it.index()), g),
                collected_view(rest@) == group_others(all.take(it.index()), g),
        {
            let ghost seen = all.take(it.index());
            let ghost this = (entry.0 as nat, entry.1@);
            let ghost mine = nodes_view(into@);
            proof {
                assert(all.take(it.index() + 1) =~= seen.push(this));
                lemma_group_push(seen, this, g);
            }
            if entry.0 == group {
                into.push(entry.1);
                assert(nodes_view(into@) =~= mine.push(this.1));
            } else {
                rest.push(entry);
            }
        }
        assert(all.take(all.len() as int) =~= all);
        rest
    }

    /// The merge phase: each list among `children`, in order, takes the
    /// definitions that were collected under its group.
    pub fn merge(children: &mut Vec<Node>, collected: Vec<(usize, Node)>)
        ensures
            nodes_view(final(children)@) == merged(
                nodes_view(old(children)@),
                collected_view(collected@),
            ),
    {
        let ghost before = nodes_view(children@);
        let ghost all = collected_view(collected@);
        let mut collected = collected;
        let n = children.len();
        let mut i: usize = 0;
        assert(before.skip(0) =~= before);
        while i < n
            invariant
                i <= n,
                n == children.len(),
                n == before.len(),
                forall|j: int| i <= j < n ==> (#[trigger] children[j])@ == before[j],
                nodes_view(children@).take(i as int) + merged(
                    before.skip(i as int),
                    collected_view(collected@),
                ) == merged(before, all),
            decreases n - i,
        {
            let ghost rest = before.skip(i as int);
            proof {
                assert(rest.skip(1) =~= before.skip(i as int + 1));
            }
            let group = match &children[i].kind {
                NodeKind::List(list) => Some(list.0),
                _ => None,
            };
            match group {
                Some(group) => {
                    assert(nodes_view(children[i as int].children@) =~= before[i as int].children);
                    collected = Self::take_group(&mut children[i].children, collected, group);
                    proof {
                        assert(children[i as int]@.children =~= nodes_view(
                            children[i as int].children@,
                        ));
                    }
                },
                None => {},
            }
            i += 1;
        }
    }

    /// Groups the definitions among the children of `root` in three phases:
    /// mark, compact, merge. Every maximal run of adjacent definitions
    /// becomes one list, which stands where the first definition of the run
    /// stood and holds the definitions of the run in order; this is `regrouped`,
    /// and it is what the phases do unless a list that was among the
    /// children before has the group of a later run (see `clash_free`). No
    /// definition and no placeholder is left among the children, and each
    /// run takes exactly one place.
    pub fn run(root: &mut Node, options: &FootnoteOptions)
        ensures
            final(root)@ == (NodeView {
                children: grouped(old(root)@.children, options.fn_list_class@),
                ..old(root)@
            }),
            settled(final(root)@.children),
            final(root)@.children.len() == lasting_count(old(root)@.children) + run_count(
                old(root)@.children,
                false,
            ),
            clash_free(old(root)@.children, 0) ==> final(root)@.children == regrouped(
                old(root)@.children,
                0,
                false,
                options.fn_list_class@,
            ),
    {
        assert(nodes_view(root.children@) =~= root@.children);
        let collected = Self::mark(&mut root.children, options.fn_list_class.as_str());
        Self::compact(&mut root.children);
        Self::merge(&mut root.children, collected);
        assert(nodes_view(root.children@) =~= root@.children);
        proof {
            lemma_grouped_settled(old(root)@.children, options.fn_list_class@);
            lemma_grouped_counts(old(root)@.children, options.fn_list_class@);
            if clash_free(old(root)@.children, 0) {
                lemma_grouped_is_regrouped(old(root)@.children, options.fn_list_class@);
            }
        }
    }
}

} // verus!
