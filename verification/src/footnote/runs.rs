//! What grouping makes of runs of adjacent definitions, said without the
//! phases, and the proofs that the phases do just that.

use crate::footnote::group::{
    collected_from, compacted, group_members, group_others, grouped, in_group, is_definition,
    lemma_group_push, list_node, marked_from, merged, out_of_group, placeholder_node,
};
use crate::node::{KindView, NodeView};
use vstd::prelude::*;

verus! {

/// Whether no sibling is a definition or a placeholder.
pub open spec fn settled(nodes: Seq<NodeView>) -> bool {
    forall|i: int|
        0 <= i < nodes.len() ==> !is_definition(#[trigger] nodes[i]) && !(nodes[i].kind
            is Placeholder)
}

proof fn lemma_marked_shape(nodes: Seq<NodeView>, seen: nat, in_run: bool, class: Seq<char>)
    ensures
        marked_from(nodes, seen, in_run, class).len() == nodes.len(),
        forall|i: int|
            0 <= i < nodes.len() ==> !is_definition(#[trigger] marked_from(nodes, seen, in_run, class)[i]),
    decreases nodes.len(),
{
    if nodes.len() > 0 {
        let marked = marked_from(nodes, seen, in_run, class);
        if is_definition(nodes[0]) {
            lemma_marked_shape(nodes.skip(1), seen, true, class);
            let rest = marked_from(nodes.skip(1), seen, true, class);
            assert forall|i: int| 0 <= i < nodes.len() implies !is_definition(#[trigger] marked[i]) by {
                if i > 0 {
                    assert(marked[i] == rest[i - 1]);
                }
            }
        } else {
            lemma_marked_shape(nodes.skip(1), seen + 1, false, class);
            let rest = marked_from(nodes.skip(1), seen + 1, false, class);
            assert forall|i: int| 0 <= i < nodes.len() implies !is_definition(#[trigger] marked[i]) by {
                if i > 0 {
                    assert(marked[i] == rest[i - 1]);
                }
            }
        }
    }
}

proof fn lemma_compacted_shape(nodes: Seq<NodeView>)
    requires
        forall|i: int| 0 <= i < nodes.len() ==> !is_definition(#[trigger] nodes[i]),
    ensures
        settled(compacted(nodes)),
    decreases nodes.len(),
{
    reveal(Seq::filter);
    if nodes.len() > 0 {
        lemma_compacted_shape(nodes.drop_last());
    }
}

/// Merging changes the children of lists and nothing else: no node is added
/// or removed, and each node stays what it is.
pub proof fn lemma_merged_shape(nodes: Seq<NodeView>, collected: Seq<(nat, NodeView)>)
    ensures
        merged(nodes, collected).len() == nodes.len(),
        forall|i: int|
            0 <= i < nodes.len() ==> (#[trigger] merged(nodes, collected)[i]).kind == nodes[i].kind,
    decreases nodes.len(),
{
    if nodes.len() > 0 {
        let out = merged(nodes, collected);
        match nodes[0].kind {
            KindView::List { group } => {
                let rest = merged(nodes.skip(1), group_others(collected, group));
                lemma_merged_shape(nodes.skip(1), group_others(collected, group));
                assert forall|i: int| 0 <= i < nodes.len() implies (#[trigger] out[i]).kind
                    == nodes[i].kind by {
                    if i > 0 {
                        assert(out[i] == rest[i - 1]);
                    }
                }
            },
            _ => {
                let rest = merged(nodes.skip(1), collected);
                lemma_merged_shape(nodes.skip(1), collected);
                assert forall|i: int| 0 <= i < nodes.len() implies (#[trigger] out[i]).kind
                    == nodes[i].kind by {
                    if i > 0 {
                        assert(out[i] == rest[i - 1]);
                    }
                }
            },
        }
    }
}

/// After grouping, no definition and no placeholder is left among the
/// siblings.
pub proof fn lemma_grouped_settled(nodes: Seq<NodeView>, class: Seq<char>)
    ensures
        settled(grouped(nodes, class)),
{
    let marked = marked_from(nodes, 0, false, class);
    lemma_marked_shape(nodes, 0, false, class);
    lemma_compacted_shape(marked);
    lemma_merged_shape(compacted(marked), collected_from(nodes, 0));
}

proof fn lemma_settled_tail(nodes: Seq<NodeView>)
    requires
        settled(nodes),
        nodes.len() > 0,
    ensures
        settled(nodes.skip(1)),
        settled(nodes.drop_last()),
{
}

proof fn lemma_settled_marks_nothing(nodes: Seq<NodeView>, seen: nat, in_run: bool, class: Seq<char>)
    requires
        settled(nodes),
    ensures
        marked_from(nodes, seen, in_run, class) == nodes,
        collected_from(nodes, seen) == Seq::<(nat, NodeView)>::empty(),
    decreases nodes.len(),
{
    if nodes.len() > 0 {
        lemma_settled_tail(nodes);
        lemma_settled_marks_nothing(nodes.skip(1), seen + 1, false, class);
    }
}

proof fn lemma_settled_compacts_to_itself(nodes: Seq<NodeView>)
    requires
        settled(nodes),
    ensures
        compacted(nodes) == nodes,
    decreases nodes.len(),
{
    let stays = |node: NodeView| !(node.kind is Placeholder);
    if nodes.len() > 0 {
        lemma_settled_tail(nodes);
        lemma_settled_compacts_to_itself(nodes.drop_last());
        Seq::lemma_filter_push(nodes.drop_last(), nodes.last(), stays);
        assert(nodes.drop_last().push(nodes.last()) =~= nodes);
    }
}

proof fn lemma_nothing_to_merge(nodes: Seq<NodeView>)
    ensures
        merged(nodes, Seq::empty()) == nodes,
    decreases nodes.len(),
{
    let none = Seq::<(nat, NodeView)>::empty();
    if nodes.len() > 0 {
        lemma_nothing_to_merge(nodes.skip(1));
        match nodes[0].kind {
            KindView::List { group } => {
                assert(group_others(none, group) =~= none);
            },
            _ => {},
        }
    }
}

/// Grouping what is already grouped changes nothing: the lists stay as they
/// are, and nothing is merged or added a second time.
pub proof fn lemma_grouping_is_idempotent(nodes: Seq<NodeView>, class: Seq<char>)
    ensures
        grouped(grouped(nodes, class), class) == grouped(nodes, class),
{
    let once = grouped(nodes, class);
    lemma_grouped_settled(nodes, class);
    lemma_settled_marks_nothing(once, 0, false, class);
    lemma_settled_compacts_to_itself(once);
    lemma_nothing_to_merge(once);
}

/// The definitions that `nodes` start with, in order.
pub open spec fn leading_definitions(nodes: Seq<NodeView>) -> Seq<NodeView>
    decreases nodes.len(),
{
    if nodes.len() > 0 && is_definition(nodes[0]) {
        seq![nodes[0]] + leading_definitions(nodes.skip(1))
    } else {
        Seq::empty()
    }
}

/// What is left of `nodes` after the definitions that they start with.
pub open spec fn after_run(nodes: Seq<NodeView>) -> Seq<NodeView>
    decreases nodes.len(),
{
    if nodes.len() > 0 && is_definition(nodes[0]) {
        after_run(nodes.skip(1))
    } else {
        nodes
    }
}

/// How many of `nodes` are no definitions.
pub open spec fn plain_count(nodes: Seq<NodeView>) -> nat
    decreases nodes.len(),
{
    if nodes.len() == 0 {
        0
    } else if is_definition(nodes[0]) {
        plain_count(nodes.skip(1))
    } else {
        1 + plain_count(nodes.skip(1))
    }
}

/// The list that stands for a run of definitions.
pub open spec fn list_of(group: nat, class: Seq<char>, members: Seq<NodeView>) -> NodeView {
    NodeView { children: members, ..list_node(group, class) }
}

/// What grouping makes of the siblings `nodes`, said directly, where `seen`
/// siblings that are no definitions came before them and `in_run` says
/// whether the sibling just before them is a definition. A definition that
/// starts a run gives way to one list, which holds the whole run in order
/// and has the number of siblings before it that are no definitions as its
/// group; the other definitions of the run leave no trace of their own.
/// Placeholders are dropped. Every other node stays as it is.
pub open spec fn regrouped(nodes: Seq<NodeView>, seen: nat, in_run: bool, class: Seq<char>) -> Seq<
    NodeView,
>
    decreases nodes.len(),
{
    if nodes.len() == 0 {
        Seq::empty()
    } else if is_definition(nodes[0]) {
        if in_run {
            regrouped(nodes.skip(1), seen, true, class)
        } else {
            seq![list_of(seen, class, leading_definitions(nodes))] + regrouped(
                nodes.skip(1),
                seen,
                true,
                class,
            )
        }
    } else if nodes[0].kind is Placeholder {
        regrouped(nodes.skip(1), seen + 1, false, class)
    } else {
        seq![nodes[0]] + regrouped(nodes.skip(1), seen + 1, false, class)
    }
}

/// Whether a definition among `nodes` is collected under `group`, where
/// `seen` siblings that are no definitions came before `nodes`.
pub open spec fn collects_under(nodes: Seq<NodeView>, seen: nat, group: nat) -> bool {
    exists|i: int|
        0 <= i < collected_from(nodes, seen).len() && (#[trigger] collected_from(nodes, seen)[i]).0
            == group
}

/// Whether no list among `nodes` has the group under which a definition
/// after it is collected, where `seen` siblings that are no definitions
/// came before `nodes`. Such a list would take that definition in the merge
/// phase.
pub open spec fn clash_free(nodes: Seq<NodeView>, seen: nat) -> bool
    decreases nodes.len(),
{
    if nodes.len() == 0 {
        true
    } else if is_definition(nodes[0]) {
        clash_free(nodes.skip(1), seen)
    } else {
        &&& nodes[0].kind matches KindView::List { group } ==> !collects_under(
            nodes.skip(1),
            seen + 1,
            group,
        )
        &&& clash_free(nodes.skip(1), seen + 1)
    }
}

/// Siblings without a list among them are free of clashes.
pub proof fn lemma_no_list_no_clash(nodes: Seq<NodeView>, seen: nat)
    requires
        forall|i: int| 0 <= i < nodes.len() ==> !((#[trigger] nodes[i]).kind is List),
    ensures
        clash_free(nodes, seen),
    decreases nodes.len(),
{
    if nodes.len() > 0 {
        if is_definition(nodes[0]) {
            lemma_no_list_no_clash(nodes.skip(1), seen);
        } else {
            lemma_no_list_no_clash(nodes.skip(1), seen + 1);
        }
    }
}

/// The definitions `definitions`, each collected under `group`.
pub open spec fn tagged(definitions: Seq<NodeView>, group: nat) -> Seq<(nat, NodeView)> {
    Seq::new(definitions.len(), |i: int| (group, definitions[i]))
}

proof fn lemma_collected_run(nodes: Seq<NodeView>, seen: nat)
    ensures
        collected_from(nodes, seen) == tagged(leading_definitions(nodes), seen) + collected_from(
            after_run(nodes),
            seen,
        ),
    decreases nodes.len(),
{
    if nodes.len() > 0 && is_definition(nodes[0]) {
        lemma_collected_run(nodes.skip(1), seen);
    }
}

proof fn lemma_collected_keys(nodes: Seq<NodeView>, seen: nat)
    ensures
        forall|i: int|
            0 <= i < collected_from(nodes, seen).len() ==> (#[trigger] collected_from(nodes, seen)[i]).0
                >= seen,
        nodes.len() == 0 || !is_definition(nodes[0]) ==> forall|i: int|
            0 <= i < collected_from(nodes, seen).len() ==> (#[trigger] collected_from(nodes, seen)[i]).0
                > seen,
    decreases nodes.len(),
{
    let all = collected_from(nodes, seen);
    if nodes.len() > 0 {
        if is_definition(nodes[0]) {
            lemma_collected_keys(nodes.skip(1), seen);
            let rest = collected_from(nodes.skip(1), seen);
            assert forall|i: int| 0 <= i < all.len() implies (#[trigger] all[i]).0 >= seen by {
                if i > 0 {
                    assert(all[i] == rest[i - 1]);
                }
            }
        } else {
            lemma_collected_keys(nodes.skip(1), seen + 1);
            let rest = collected_from(nodes.skip(1), seen + 1);
            assert forall|i: int| 0 <= i < all.len() implies (#[trigger] all[i]).0 > seen by {
                assert(all[i] == rest[i]);
            }
        }
    }
}

proof fn lemma_group_of_tagged(definitions: Seq<NodeView>, group: nat)
    ensures
        group_members(tagged(definitions, group), group) == definitions,
        group_others(tagged(definitions, group), group) == Seq::<(nat, NodeView)>::empty(),
    decreases definitions.len(),
{
    let all = tagged(definitions, group);
    if definitions.len() > 0 {
        lemma_group_of_tagged(definitions.drop_last(), group);
        assert(all =~= tagged(definitions.drop_last(), group).push((group, definitions.last())));
        lemma_group_push(
            tagged(definitions.drop_last(), group),
            (group, definitions.last()),
            group,
        );
    }
}

proof fn lemma_group_of_others(collected: Seq<(nat, NodeView)>, group: nat)
    requires
        forall|i: int| 0 <= i < collected.len() ==> (#[trigger] collected[i]).0 != group,
    ensures
        group_members(collected, group) == Seq::<NodeView>::empty(),
        group_others(collected, group) == collected,
    decreases collected.len(),
{
    if collected.len() > 0 {
        lemma_group_of_others(collected.drop_last(), group);
        lemma_group_push(collected.drop_last(), collected.last(), group);
        assert(collected.drop_last().push(collected.last()) =~= collected);
    }
}

proof fn lemma_group_add(a: Seq<(nat, NodeView)>, b: Seq<(nat, NodeView)>, group: nat)
    ensures
        group_members(a + b, group) == group_members(a, group) + group_members(b, group),
        group_others(a + b, group) == group_others(a, group) + group_others(b, group),
    decreases b.len(),
{
    if b.len() > 0 {
        lemma_group_add(a, b.drop_last(), group);
        lemma_group_push(a + b.drop_last(), b.last(), group);
        lemma_group_push(b.drop_last(), b.last(), group);
    }
}

proof fn lemma_compacted_front(first: NodeView, rest: Seq<NodeView>)
    ensures
        compacted(seq![first] + rest) == if first.kind is Placeholder {
            compacted(rest)
        } else {
            seq![first] + compacted(rest)
        },
{
    let stays = |node: NodeView| !(node.kind is Placeholder);
    Seq::filter_distributes_over_add(seq![first], rest, stays);
    Seq::lemma_filter_push(Seq::<NodeView>::empty(), first, stays);
    Seq::<NodeView>::empty().lemma_filter_len(stays);
}

/// The definitions still to be merged when the walk stands before `nodes`:
/// those among `nodes`, but for the ones that continue a run, whose list
/// stands before `nodes`.
pub open spec fn pending(nodes: Seq<NodeView>, seen: nat, in_run: bool) -> Seq<(nat, NodeView)> {
    if in_run {
        collected_from(after_run(nodes), seen)
    } else {
        collected_from(nodes, seen)
    }
}

proof fn lemma_merged_front(first: NodeView, rest: Seq<NodeView>, collected: Seq<(nat, NodeView)>)
    ensures
        merged(seq![first] + rest, collected) == match first.kind {
            KindView::List { group } => seq![
                NodeView { children: first.children + group_members(collected, group), ..first },
            ] + merged(rest, group_others(collected, group)),
            _ => seq![first] + merged(rest, collected),
        },
{
    let all = seq![first] + rest;
    assert(all.skip(1) =~= rest);
}

proof fn lemma_run_fills_its_list(
    nodes: Seq<NodeView>,
    seen: nat,
    class: Seq<char>,
    rest: Seq<NodeView>,
)
    requires
        nodes.len() > 0,
        is_definition(nodes[0]),
    ensures
        merged(seq![list_node(seen, class)] + rest, collected_from(nodes, seen)) == seq![
            list_of(seen, class, leading_definitions(nodes)),
        ] + merged(rest, collected_from(after_run(nodes), seen)),
{
    let list = list_node(seen, class);
    let run = leading_definitions(nodes);
    let own = tagged(run, seen);
    let others = collected_from(after_run(nodes), seen);
    lemma_collected_run(nodes, seen);
    lemma_after_run_start(nodes);
    lemma_collected_keys(after_run(nodes), seen);
    lemma_group_add(own, others, seen);
    lemma_group_of_tagged(run, seen);
    lemma_group_of_others(others, seen);
    lemma_merged_front(list, rest, collected_from(nodes, seen));
}

proof fn lemma_phases_regroup(nodes: Seq<NodeView>, seen: nat, in_run: bool, class: Seq<char>)
    requires
        clash_free(nodes, seen),
    ensures
        merged(compacted(marked_from(nodes, seen, in_run, class)), pending(nodes, seen, in_run))
            == regrouped(nodes, seen, in_run, class),
    decreases nodes.len(),
{
    if nodes.len() == 0 {
    } else if is_definition(nodes[0]) {
        let rest = nodes.skip(1);
        let later = marked_from(rest, seen, true, class);
        lemma_phases_regroup(rest, seen, true, class);
        if in_run {
            lemma_compacted_front(placeholder_node(class), later);
        } else {
            lemma_compacted_front(list_node(seen, class), later);
            lemma_run_fills_its_list(nodes, seen, class, compacted(later));
        }
    } else {
        let rest = nodes.skip(1);
        let later = marked_from(rest, seen + 1, false, class);
        let at_hand = collected_from(rest, seen + 1);
        lemma_phases_regroup(rest, seen + 1, false, class);
        lemma_compacted_front(nodes[0], later);
        if !(nodes[0].kind is Placeholder) {
            lemma_merged_front(nodes[0], compacted(later), at_hand);
            match nodes[0].kind {
                KindView::List { group } => {
                    lemma_group_of_others(at_hand, group);
                },
                _ => {},
            }
        }
    }
}

proof fn lemma_after_run_start(nodes: Seq<NodeView>)
    ensures
        after_run(nodes).len() == 0 || !is_definition(after_run(nodes)[0]),
    decreases nodes.len(),
{
    if nodes.len() > 0 && is_definition(nodes[0]) {
        lemma_after_run_start(nodes.skip(1));
    }
}

/// Where no list clashes with a later definition, the three phases make of
/// the siblings exactly what `regrouped` says.
pub proof fn lemma_grouped_is_regrouped(nodes: Seq<NodeView>, class: Seq<char>)
    requires
        clash_free(nodes, 0),
    ensures
        grouped(nodes, class) == regrouped(nodes, 0, false, class),
{
    lemma_phases_regroup(nodes, 0, false, class);
}

proof fn lemma_leading_stops_in_front(front: Seq<NodeView>, rest: Seq<NodeView>)
    requires
        front.len() > 0,
        !is_definition(front.last()),
    ensures
        leading_definitions(front + rest) == leading_definitions(front),
    decreases front.len(),
{
    let whole = front + rest;
    if is_definition(front[0]) {
        assert(whole.skip(1) =~= front.skip(1) + rest);
        lemma_leading_stops_in_front(front.skip(1), rest);
    }
}

proof fn lemma_regrouped_add(
    front: Seq<NodeView>,
    rest: Seq<NodeView>,
    seen: nat,
    in_run: bool,
    class: Seq<char>,
)
    requires
        front.len() > 0,
        !is_definition(front.last()),
    ensures
        regrouped(front + rest, seen, in_run, class) == regrouped(front, seen, in_run, class)
            + regrouped(rest, seen + plain_count(front), false, class),
    decreases front.len(),
{
    let whole = front + rest;
    let tail = front.skip(1);
    assert(whole.skip(1) =~= tail + rest);
    let step = if is_definition(front[0]) {
        seen
    } else {
        seen + 1
    };
    let next_run = is_definition(front[0]);
    if front.len() != 1 {
        lemma_regrouped_add(tail, rest, step, next_run, class);
        if is_definition(front[0]) {
            if !in_run {
                lemma_leading_stops_in_front(front, rest);
            }
        } else if !(front[0].kind is Placeholder) {
        }
    }
}

proof fn lemma_regrouped_after_run(run: Seq<NodeView>, rest: Seq<NodeView>, seen: nat, class: Seq<char>)
    requires
        forall|i: int| 0 <= i < run.len() ==> is_definition(#[trigger] run[i]),
        rest.len() > 0 ==> !is_definition(rest[0]),
    ensures
        regrouped(run + rest, seen, true, class) == regrouped(rest, seen, false, class),
        leading_definitions(run + rest) == run,
    decreases run.len(),
{
    let whole = run + rest;
    if run.len() > 0 {
        assert(whole.skip(1) =~= run.skip(1) + rest);
        lemma_regrouped_after_run(run.skip(1), rest, seen, class);
    }
}

/// Settled siblings regroup to themselves.
pub proof fn lemma_settled_regroups_to_itself(
    nodes: Seq<NodeView>,
    seen: nat,
    in_run: bool,
    class: Seq<char>,
)
    requires
        settled(nodes),
    ensures
        regrouped(nodes, seen, in_run, class) == nodes,
    decreases nodes.len(),
{
    if nodes.len() > 0 {
        lemma_settled_tail(nodes);
        lemma_settled_regroups_to_itself(nodes.skip(1), seen + 1, false, class);
    }
}

/// What `regrouped` says of a maximal run of adjacent definitions. Let the
/// siblings be `before`, then the run, then `after`, where the run is not
/// empty and holds definitions only, `before` does not end and `after` does
/// not start with a definition. What `before` becomes comes first, then one
/// list that holds the definitions of the run in their order, then what
/// `after` becomes.
pub proof fn lemma_regrouped_run(
    before: Seq<NodeView>,
    run: Seq<NodeView>,
    after: Seq<NodeView>,
    class: Seq<char>,
)
    requires
        run.len() > 0,
        forall|i: int| 0 <= i < run.len() ==> is_definition(#[trigger] run[i]),
        before.len() > 0 ==> !is_definition(before.last()),
        after.len() > 0 ==> !is_definition(after[0]),
    ensures
        regrouped(before + run + after, 0, false, class) == regrouped(before, 0, false, class)
            + seq![list_of(plain_count(before), class, run)] + regrouped(
            after,
            plain_count(before),
            false,
            class,
        ),
{
    let nodes = before + run + after;
    let tail = run + after;
    let open = plain_count(before);
    assert(nodes =~= before + tail);
    lemma_regrouped_after_run(run, after, open, class);
    assert forall|i: int| 0 <= i < run.skip(1).len() implies is_definition(
        #[trigger] run.skip(1)[i],
    ) by {
        assert(run.skip(1)[i] == run[i + 1]);
    }
    lemma_regrouped_after_run(run.skip(1), after, open, class);
    assert(tail[0] == run[0]);
    assert(tail.skip(1) =~= run.skip(1) + after);
    let list = seq![list_of(open, class, run)];
    assert(regrouped(tail, open, false, class) == list + regrouped(after, open, false, class));
    if before.len() == 0 {
        assert(before + tail =~= tail);
        assert(regrouped(before, 0, false, class) =~= Seq::empty());
        assert(regrouped(before, 0, false, class) + list =~= list);
    } else {
        lemma_regrouped_add(before, tail, 0, false, class);
        let first = regrouped(before, 0, false, class);
        let rest = regrouped(after, open, false, class);
        assert(first + (list + rest) =~= first + list + rest);
    }
}

/// Whether no list among `nodes` has the group `group`.
pub open spec fn no_list_of(nodes: Seq<NodeView>, group: nat) -> bool {
    forall|i: int| 0 <= i < nodes.len() ==> (#[trigger] nodes[i]).kind != (KindView::List { group })
}

/// Whether a definition that follows `nodes` continues a run, where
/// `in_run` says so of a definition that comes in their place.
pub open spec fn ends_in_run(nodes: Seq<NodeView>, in_run: bool) -> bool {
    if nodes.len() == 0 {
        in_run
    } else {
        is_definition(nodes.last())
    }
}

/// The collected definitions that are still at hand once the lists among
/// `nodes` have taken theirs.
pub open spec fn left_over(nodes: Seq<NodeView>, collected: Seq<(nat, NodeView)>) -> Seq<
    (nat, NodeView),
>
    decreases nodes.len(),
{
    if nodes.len() == 0 {
        collected
    } else {
        match nodes[0].kind {
            KindView::List { group } => left_over(nodes.skip(1), group_others(collected, group)),
            _ => left_over(nodes.skip(1), collected),
        }
    }
}

proof fn lemma_plain_count_last(nodes: Seq<NodeView>)
    requires
        nodes.len() > 0,
        !is_definition(nodes.last()),
    ensures
        plain_count(nodes) > 0,
    decreases nodes.len(),
{
    if nodes.len() > 1 {
        assert(nodes.skip(1).last() == nodes.last());
        lemma_plain_count_last(nodes.skip(1));
    }
}

proof fn lemma_marked_add(
    a: Seq<NodeView>,
    b: Seq<NodeView>,
    seen: nat,
    in_run: bool,
    class: Seq<char>,
)
    ensures
        marked_from(a + b, seen, in_run, class) == marked_from(a, seen, in_run, class)
            + marked_from(b, seen + plain_count(a), ends_in_run(a, in_run), class),
        collected_from(a + b, seen) == collected_from(a, seen) + collected_from(
            b,
            seen + plain_count(a),
        ),
    decreases a.len(),
{
    let whole = a + b;
    if a.len() == 0 {
        assert(whole =~= b);
        assert(marked_from(a, seen, in_run, class) + marked_from(b, seen, in_run, class)
            =~= marked_from(b, seen, in_run, class));
        assert(collected_from(a, seen) + collected_from(b, seen) =~= collected_from(b, seen));
    } else {
        assert(whole[0] == a[0]);
        assert(whole.skip(1) =~= a.skip(1) + b);
        let step = if is_definition(a[0]) {
            seen
        } else {
            seen + 1
        };
        let flag = is_definition(a[0]);
        lemma_marked_add(a.skip(1), b, step, flag, class);
        if a.len() > 1 {
            assert(a.skip(1).last() == a.last());
        }
        assert(ends_in_run(a.skip(1), flag) == ends_in_run(a, in_run));
        let first = seq![marked_from(whole, seen, in_run, class)[0]];
        let x = marked_from(a.skip(1), step, flag, class);
        let y = marked_from(b, step + plain_count(a.skip(1)), ends_in_run(a, in_run), class);
        assert(first + (x + y) =~= (first + x) + y);
        if is_definition(a[0]) {
            let own = seq![(seen, a[0])];
            let u = collected_from(a.skip(1), step);
            let v = collected_from(b, step + plain_count(a.skip(1)));
            assert(own + (u + v) =~= (own + u) + v);
        }
    }
}

proof fn lemma_merged_add(a: Seq<NodeView>, b: Seq<NodeView>, collected: Seq<(nat, NodeView)>)
    ensures
        merged(a + b, collected) == merged(a, collected) + merged(b, left_over(a, collected)),
    decreases a.len(),
{
    let whole = a + b;
    if a.len() == 0 {
        assert(whole =~= b);
        assert(merged(a, collected) + merged(b, collected) =~= merged(b, collected));
    } else {
        assert(whole[0] == a[0]);
        assert(whole.skip(1) =~= a.skip(1) + b);
        let at_hand = match a[0].kind {
            KindView::List { group } => group_others(collected, group),
            _ => collected,
        };
        lemma_merged_add(a.skip(1), b, at_hand);
        let first = seq![merged(whole, collected)[0]];
        let x = merged(a.skip(1), at_hand);
        let y = merged(b, left_over(a.skip(1), at_hand));
        assert(first + (x + y) =~= (first + x) + y);
    }
}

proof fn lemma_others_keep_group(collected: Seq<(nat, NodeView)>, gone: nat, group: nat)
    requires
        gone != group,
    ensures
        group_members(group_others(collected, gone), group) == group_members(collected, group),
    decreases collected.len(),
{
    if collected.len() == 0 {
        collected.lemma_filter_len(out_of_group(gone));
        assert(group_others(collected, gone) =~= collected);
    } else {
        let front = collected.drop_last();
        let last = collected.last();
        lemma_others_keep_group(front, gone, group);
        assert(front.push(last) =~= collected);
        lemma_group_push(front, last, gone);
        lemma_group_push(front, last, group);
        if last.0 != gone {
            lemma_group_push(group_others(front, gone), last, group);
        }
    }
}

proof fn lemma_left_over_keeps_group(
    nodes: Seq<NodeView>,
    collected: Seq<(nat, NodeView)>,
    group: nat,
)
    requires
        no_list_of(nodes, group),
    ensures
        group_members(left_over(nodes, collected), group) == group_members(collected, group),
    decreases nodes.len(),
{
    if nodes.len() > 0 {
        assert forall|i: int| 0 <= i < nodes.skip(1).len() implies (#[trigger] nodes.skip(1)[i]).kind
            != (KindView::List { group }) by {
            assert(nodes.skip(1)[i] == nodes[i + 1]);
        }
        assert(nodes[0].kind != (KindView::List { group }));
        match nodes[0].kind {
            KindView::List { group: gone } => {
                lemma_others_keep_group(collected, gone, group);
                lemma_left_over_keeps_group(nodes.skip(1), group_others(collected, gone), group);
            },
            _ => {
                lemma_left_over_keeps_group(nodes.skip(1), collected, group);
            },
        }
    }
}

proof fn lemma_marked_lists(
    nodes: Seq<NodeView>,
    seen: nat,
    in_run: bool,
    class: Seq<char>,
    group: nat,
)
    requires
        no_list_of(nodes, group),
        nodes.len() > 0 ==> !is_definition(nodes.last()),
        group >= seen + plain_count(nodes),
    ensures
        no_list_of(compacted(marked_from(nodes, seen, in_run, class)), group),
        forall|i: int|
            0 <= i < collected_from(nodes, seen).len() ==> (#[trigger] collected_from(nodes, seen)[i]).0
                < group,
    decreases nodes.len(),
{
    let marked = marked_from(nodes, seen, in_run, class);
    if nodes.len() == 0 {
        marked.lemma_filter_len(|node: NodeView| !(node.kind is Placeholder));
    } else {
        lemma_plain_count_last(nodes);
        let rest = nodes.skip(1);
        assert forall|i: int| 0 <= i < rest.len() implies (#[trigger] rest[i]).kind != (
        KindView::List { group }) by {
            assert(rest[i] == nodes[i + 1]);
        }
        if rest.len() > 0 {
            assert(rest.last() == nodes.last());
        }
        let step = if is_definition(nodes[0]) {
            seen
        } else {
            seen + 1
        };
        let flag = is_definition(nodes[0]);
        assert(nodes.len() == 1 ==> !is_definition(nodes[0]));
        lemma_marked_lists(rest, step, flag, class, group);
        let later = marked_from(rest, step, flag, class);
        lemma_compacted_front(marked[0], later);
        assert(nodes[0].kind != (KindView::List { group }));
        let kept = compacted(later);
        let all = compacted(marked);
        assert forall|i: int| 0 <= i < all.len() implies (#[trigger] all[i]).kind != (
        KindView::List { group }) by {
            if marked[0].kind is Placeholder {
                assert(all[i] == kept[i]);
            } else if i > 0 {
                assert(all[i] == kept[i - 1]);
            }
        }
        let found = collected_from(nodes, seen);
        let more = collected_from(rest, step);
        assert forall|i: int| 0 <= i < found.len() implies (#[trigger] found[i]).0 < group by {
            if is_definition(nodes[0]) {
                if i > 0 {
                    assert(found[i] == more[i - 1]);
                }
            } else {
                assert(found[i] == more[i]);
            }
        }
    }
}

proof fn lemma_marked_run(run: Seq<NodeView>, seen: nat, in_run: bool, class: Seq<char>)
    requires
        forall|i: int| 0 <= i < run.len() ==> is_definition(#[trigger] run[i]),
    ensures
        compacted(marked_from(run, seen, in_run, class)) == if in_run || run.len() == 0 {
            Seq::<NodeView>::empty()
        } else {
            seq![list_node(seen, class)]
        },
        collected_from(run, seen) == tagged(run, seen),
        plain_count(run) == 0,
    decreases run.len(),
{
    let marked = marked_from(run, seen, in_run, class);
    if run.len() == 0 {
        marked.lemma_filter_len(|node: NodeView| !(node.kind is Placeholder));
        assert(compacted(marked) =~= Seq::empty());
        assert(collected_from(run, seen) =~= tagged(run, seen));
    } else {
        let rest = run.skip(1);
        assert forall|i: int| 0 <= i < rest.len() implies is_definition(#[trigger] rest[i]) by {
            assert(rest[i] == run[i + 1]);
        }
        lemma_marked_run(rest, seen, true, class);
        lemma_compacted_front(marked[0], marked_from(rest, seen, true, class));
        assert(seq![(seen, run[0])] + tagged(rest, seen) =~= tagged(run, seen));
        if !in_run {
            assert(seq![list_node(seen, class)] + Seq::<NodeView>::empty() =~= seq![
                list_node(seen, class),
            ]);
        }
    }
}

proof fn lemma_kept_count(nodes: Seq<NodeView>, one: nat, other: nat, in_run: bool, class: Seq<char>)
    ensures
        compacted(marked_from(nodes, one, in_run, class)).len() == compacted(
            marked_from(nodes, other, in_run, class),
        ).len(),
    decreases nodes.len(),
{
    let a = marked_from(nodes, one, in_run, class);
    let b = marked_from(nodes, other, in_run, class);
    if nodes.len() == 0 {
        assert(a =~= b);
    } else if is_definition(nodes[0]) {
        lemma_kept_count(nodes.skip(1), one, other, true, class);
        lemma_compacted_front(a[0], marked_from(nodes.skip(1), one, true, class));
        lemma_compacted_front(b[0], marked_from(nodes.skip(1), other, true, class));
    } else {
        lemma_kept_count(nodes.skip(1), one + 1, other + 1, false, class);
        lemma_compacted_front(a[0], marked_from(nodes.skip(1), one + 1, false, class));
        lemma_compacted_front(b[0], marked_from(nodes.skip(1), other + 1, false, class));
    }
}

proof fn lemma_flag_is_moot(nodes: Seq<NodeView>, seen: nat, class: Seq<char>)
    requires
        nodes.len() > 0 ==> !is_definition(nodes[0]),
    ensures
        marked_from(nodes, seen, true, class) == marked_from(nodes, seen, false, class),
{
}

proof fn lemma_run_parts(
    before: Seq<NodeView>,
    run: Seq<NodeView>,
    after: Seq<NodeView>,
    class: Seq<char>,
)
    requires
        run.len() > 0,
        forall|i: int| 0 <= i < run.len() ==> is_definition(#[trigger] run[i]),
        before.len() > 0 ==> !is_definition(before.last()),
        after.len() > 0 ==> !is_definition(after[0]),
    ensures
        compacted(marked_from(before + run + after, 0, false, class)) == compacted(
            marked_from(before, 0, false, class),
        ) + (seq![list_node(plain_count(before), class)] + compacted(
            marked_from(after, plain_count(before), false, class),
        )),
        collected_from(before + run + after, 0) == collected_from(before, 0) + (tagged(
            run,
            plain_count(before),
        ) + collected_from(after, plain_count(before))),
{
    let nodes = before + run + after;
    let open = plain_count(before);
    let tail = run + after;
    assert(nodes =~= before + tail);
    lemma_marked_add(before, tail, 0, false, class);
    lemma_marked_add(run, after, open, false, class);
    lemma_marked_run(run, open, false, class);
    lemma_flag_is_moot(after, open, class);
    let m_before = marked_from(before, 0, false, class);
    let m_run = marked_from(run, open, false, class);
    let m_after = marked_from(after, open, false, class);
    let stays = |node: NodeView| !(node.kind is Placeholder);
    Seq::filter_distributes_over_add(m_before, m_run + m_after, stays);
    Seq::filter_distributes_over_add(m_run, m_after, stays);
}

proof fn lemma_run_members(
    before: Seq<NodeView>,
    run: Seq<NodeView>,
    after: Seq<NodeView>,
    class: Seq<char>,
)
    requires
        before.len() > 0 ==> !is_definition(before.last()),
        after.len() > 0 ==> !is_definition(after[0]),
        no_list_of(before, plain_count(before)),
    ensures
        group_members(
            left_over(
                compacted(marked_from(before, 0, false, class)),
                collected_from(before, 0) + (tagged(run, plain_count(before)) + collected_from(
                    after,
                    plain_count(before),
                )),
            ),
            plain_count(before),
        ) == run,
{
    let open = plain_count(before);
    let c_before = collected_from(before, 0);
    let c_run = tagged(run, open);
    let c_after = collected_from(after, open);
    let all = c_before + (c_run + c_after);
    lemma_marked_lists(before, 0, false, class, open);
    lemma_left_over_keeps_group(compacted(marked_from(before, 0, false, class)), all, open);
    lemma_group_add(c_before, c_run + c_after, open);
    lemma_group_add(c_run, c_after, open);
    lemma_group_of_others(c_before, open);
    lemma_group_of_tagged(run, open);
    lemma_collected_keys(after, open);
    lemma_group_of_others(c_after, open);
    assert(Seq::<NodeView>::empty() + (run + Seq::<NodeView>::empty()) =~= run);
}

/// A maximal run of adjacent definitions becomes exactly one list. Let the
/// siblings be `before`, then the run, then `after`, where the run is not
/// empty and holds definitions only, `before` does not end and `after` does
/// not start with a definition, and no list in `before` has the group of
/// the run, which is the number of siblings in `before` that are no
/// definitions. After grouping, one list stands in the place of the whole
/// run: it comes right after what `before` has become, and as many nodes
/// follow it as `after` becomes. The list holds the definitions of the run
/// in their order. No definition and no placeholder is left. Where `before`
/// holds no definition and no placeholder, the list stands at the very
/// index at which the run started.
pub proof fn lemma_run_becomes_one_list(
    before: Seq<NodeView>,
    run: Seq<NodeView>,
    after: Seq<NodeView>,
    class: Seq<char>,
)
    requires
        run.len() > 0,
        forall|i: int| 0 <= i < run.len() ==> is_definition(#[trigger] run[i]),
        before.len() > 0 ==> !is_definition(before.last()),
        after.len() > 0 ==> !is_definition(after[0]),
        no_list_of(before, plain_count(before)),
    ensures
        grouped(before + run + after, class).len() == grouped(before, class).len() + 1 + grouped(
            after,
            class,
        ).len(),
        grouped(before + run + after, class)[grouped(before, class).len() as int] == list_of(
            plain_count(before),
            class,
            run,
        ),
        settled(grouped(before + run + after, class)),
        settled(before) ==> grouped(before, class).len() == before.len(),
{
    let nodes = before + run + after;
    let open = plain_count(before);
    lemma_grouped_settled(nodes, class);
    if settled(before) {
        lemma_settled_marks_nothing(before, 0, false, class);
        lemma_settled_compacts_to_itself(before);
        lemma_nothing_to_merge(before);
    }
    lemma_run_parts(before, run, after, class);
    lemma_run_members(before, run, after, class);
    let x = compacted(marked_from(before, 0, false, class));
    let y = compacted(marked_from(after, open, false, class));
    let list = list_node(open, class);
    let all = collected_from(before, 0) + (tagged(run, open) + collected_from(after, open));
    let at_hand = left_over(x, all);
    lemma_merged_add(x, seq![list] + y, all);
    lemma_merged_front(list, y, at_hand);
    assert(list.children + run =~= run);
    let filled = list_of(open, class, run);
    let rest = merged(y, group_others(at_hand, open));
    assert(merged(seq![list] + y, at_hand) == seq![filled] + rest);
    lemma_merged_shape(x, all);
    lemma_merged_shape(y, group_others(at_hand, open));
    lemma_merged_shape(x, collected_from(before, 0));
    lemma_merged_shape(compacted(marked_from(after, 0, false, class)), collected_from(after, 0));
    lemma_kept_count(after, open, 0, false, class);
    let out = grouped(nodes, class);
    assert(out == merged(x, all) + (seq![filled] + rest));
    assert(out[x.len() as int] == filled);
}

/// How many runs of adjacent definitions start among `nodes`, where
/// `in_run` says whether the sibling just before them is a definition.
pub open spec fn run_count(nodes: Seq<NodeView>, in_run: bool) -> nat
    decreases nodes.len(),
{
    if nodes.len() == 0 {
        0
    } else if is_definition(nodes[0]) {
        (if in_run {
            0nat
        } else {
            1nat
        }) + run_count(nodes.skip(1), true)
    } else {
        run_count(nodes.skip(1), false)
    }
}

/// How many of `nodes` are neither definitions nor placeholders.
pub open spec fn lasting_count(nodes: Seq<NodeView>) -> nat
    decreases nodes.len(),
{
    if nodes.len() == 0 {
        0
    } else {
        (if is_definition(nodes[0]) || nodes[0].kind is Placeholder {
            0nat
        } else {
            1nat
        }) + lasting_count(nodes.skip(1))
    }
}

/// How many of `nodes` are lists.
pub open spec fn list_count(nodes: Seq<NodeView>) -> nat
    decreases nodes.len(),
{
    if nodes.len() == 0 {
        0
    } else {
        (if nodes[0].kind is List {
            1nat
        } else {
            0nat
        }) + list_count(nodes.skip(1))
    }
}

proof fn lemma_marked_counts(nodes: Seq<NodeView>, seen: nat, in_run: bool, class: Seq<char>)
    ensures
        compacted(marked_from(nodes, seen, in_run, class)).len() == lasting_count(nodes)
            + run_count(nodes, in_run),
        list_count(compacted(marked_from(nodes, seen, in_run, class))) == list_count(nodes)
            + run_count(nodes, in_run),
    decreases nodes.len(),
{
    let marked = marked_from(nodes, seen, in_run, class);
    if nodes.len() == 0 {
        marked.lemma_filter_len(|node: NodeView| !(node.kind is Placeholder));
    } else {
        let step = if is_definition(nodes[0]) {
            seen
        } else {
            seen + 1
        };
        let flag = is_definition(nodes[0]);
        let later = marked_from(nodes.skip(1), step, flag, class);
        lemma_marked_counts(nodes.skip(1), step, flag, class);
        lemma_compacted_front(marked[0], later);
        if !(marked[0].kind is Placeholder) {
            assert((seq![marked[0]] + compacted(later)).skip(1) =~= compacted(later));
        }
    }
}

proof fn lemma_list_count_by_kind(a: Seq<NodeView>, b: Seq<NodeView>)
    requires
        a.len() == b.len(),
        forall|i: int| 0 <= i < a.len() ==> (#[trigger] a[i]).kind == b[i].kind,
    ensures
        list_count(a) == list_count(b),
    decreases a.len(),
{
    if a.len() > 0 {
        assert forall|i: int| 0 <= i < a.skip(1).len() implies (#[trigger] a.skip(1)[i]).kind
            == b.skip(1)[i].kind by {
            assert(a.skip(1)[i] == a[i + 1]);
            assert(b.skip(1)[i] == b[i + 1]);
        }
        assert(a[0].kind == b[0].kind);
        lemma_list_count_by_kind(a.skip(1), b.skip(1));
    }
}

/// After grouping, the siblings are those that were neither definitions
/// nor placeholders and one list for each run of adjacent definitions: each
/// run takes exactly one place, and there are as many lists more as there
/// were runs.
pub proof fn lemma_grouped_counts(nodes: Seq<NodeView>, class: Seq<char>)
    ensures
        grouped(nodes, class).len() == lasting_count(nodes) + run_count(nodes, false),
        list_count(grouped(nodes, class)) == list_count(nodes) + run_count(nodes, false),
        settled(grouped(nodes, class)),
{
    let kept = compacted(marked_from(nodes, 0, false, class));
    lemma_marked_counts(nodes, 0, false, class);
    lemma_merged_shape(kept, collected_from(nodes, 0));
    lemma_list_count_by_kind(grouped(nodes, class), kept);
    lemma_grouped_settled(nodes, class);
}

} // verus!
