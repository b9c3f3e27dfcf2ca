//! The outline flattened into document order, and what pushing an item
//! does to it.

use crate::toc::{item_pushed, outline_pushed, OutlineItem, OutlineView};
use vstd::prelude::*;

verus! {

/// One line of the flattened outline: an entry and how deep it is nested.
pub struct OutlineEntry {
    pub depth: nat,
    pub slug: Seq<char>,
    pub title: Seq<char>,
    pub level: u8,
}

/// `item` and all that is nested under it, in document order, where `item`
/// itself stands at `depth`.
pub open spec fn item_entries(item: OutlineItem, depth: nat) -> Seq<OutlineEntry>
    decreases item,
{
    seq![OutlineEntry { depth, slug: item.slug, title: item.title, level: item.level }]
        + items_entries(item.children, depth + 1)
}

/// The entries of `items` and all that is nested under them, in document
/// order, where `items` themselves stand at `depth`.
pub open spec fn items_entries(items: Seq<OutlineItem>, depth: nat) -> Seq<OutlineEntry>
    decreases items,
{
    if items.len() == 0 {
        Seq::empty()
    } else {
        items_entries(items.drop_last(), depth) + item_entries(items.last(), depth)
    }
}

/// The whole outline flattened, top-level entries at depth 0.
pub open spec fn outline_entries(toc: OutlineView) -> Seq<OutlineEntry> {
    items_entries(toc.contents, 0)
}

/// The depth at which `item_pushed` places an item under `parent`, which
/// itself stands at `depth`.
pub open spec fn item_push_depth(parent: OutlineItem, level: u8, depth: nat) -> nat
    decreases parent,
{
    if parent.children.len() > 0 && level > parent.children.last().level {
        item_push_depth(parent.children.last(), level, depth + 1)
    } else {
        depth + 1
    }
}

/// The depth at which `outline_pushed` places an item.
pub open spec fn outline_push_depth(toc: OutlineView, level: u8) -> nat {
    if toc.contents.len() > 0 && level > toc.min_level {
        item_push_depth(toc.contents.last(), level, 0)
    } else {
        0
    }
}

/// In a flattened outline the first entry is at depth 0 and no entry is more
/// than one level deeper than the entry before it.
pub open spec fn stepwise(entries: Seq<OutlineEntry>) -> bool {
    &&& entries.len() > 0 ==> entries[0].depth == 0
    &&& forall|i: int| 0 < i < entries.len() ==> #[trigger] entries[i].depth <= entries[i - 1].depth + 1
}

/// An entry and what is under it flatten to at least the entry itself, and
/// to nothing above the entry's own depth.
pub proof fn lemma_item_entries_depths(item: OutlineItem, depth: nat)
    ensures
        item_entries(item, depth).len() > 0,
        item_entries(item, depth)[0].depth == depth,
        forall|i: int| 0 <= i < item_entries(item, depth).len() ==> #[trigger] item_entries(item, depth)[i].depth >= depth,
    decreases item, 1int,
{
    lemma_items_entries_depths(item.children, depth + 1);
    let below = items_entries(item.children, depth + 1);
    assert forall|i: int| 0 <= i < item_entries(item, depth).len() implies #[trigger] item_entries(
        item,
        depth,
    )[i].depth >= depth by {
        if i > 0 {
            assert(item_entries(item, depth)[i] == below[i - 1]);
        }
    }
}

/// A list of entries flattens to nothing above the list's own depth.
pub proof fn lemma_items_entries_depths(items: Seq<OutlineItem>, depth: nat)
    ensures
        forall|i: int| 0 <= i < items_entries(items, depth).len() ==> #[trigger] items_entries(items, depth)[i].depth >= depth,
    decreases items, 0int,
{
    if items.len() > 0 {
        lemma_items_entries_depths(items.drop_last(), depth);
        lemma_item_entries_depths(items.last(), depth);
        let head = items_entries(items.drop_last(), depth);
        let tail = item_entries(items.last(), depth);
        assert forall|i: int| 0 <= i < items_entries(items, depth).len() implies #[trigger] items_entries(
            items,
            depth,
        )[i].depth >= depth by {
            if i < head.len() {
                assert(items_entries(items, depth)[i] == head[i]);
            } else {
                assert(items_entries(items, depth)[i] == tail[i - head.len()]);
            }
        }
    }
}

/// Pushing under an entry adds the item, with what is nested under it, at
/// the end of the entry's flattening and changes nothing before it; the item
/// lands below the entry and at most one level deeper than the entry that was
/// last before.
pub proof fn lemma_item_pushed_entries(parent: OutlineItem, item: OutlineItem, level: u8, depth: nat)
    ensures
        item_entries(item_pushed(parent, item, level), depth) == item_entries(parent, depth)
            + item_entries(item, item_push_depth(parent, level, depth)),
        depth < item_push_depth(parent, level, depth),
        item_push_depth(parent, level, depth) <= item_entries(parent, depth).last().depth + 1,
    decreases parent,
{
    let kids = parent.children;
    let own = seq![
        OutlineEntry { depth, slug: parent.slug, title: parent.title, level: parent.level },
    ];
    lemma_item_entries_depths(parent, depth);
    if kids.len() > 0 && level > kids.last().level {
        let last = kids.last();
        let grown = kids.update(kids.len() - 1, item_pushed(last, item, level));
        lemma_item_pushed_entries(last, item, level, depth + 1);
        lemma_item_entries_depths(last, depth + 1);
        assert(grown.drop_last() =~= kids.drop_last());
        let head = items_entries(kids.drop_last(), depth + 1);
        let tail = item_entries(last, depth + 1);
        let added = item_entries(item, item_push_depth(last, level, depth + 1));
        assert(own + (head + (tail + added)) =~= (own + (head + tail)) + added);
        assert(item_entries(parent, depth).last() == tail.last());
    } else {
        assert(kids.push(item).drop_last() =~= kids);
        let head = items_entries(kids, depth + 1);
        let added = item_entries(item, depth + 1);
        assert(own + (head + added) =~= (own + head) + added);
    }
}

/// Pushing onto the outline adds the item, with what is nested under it, at
/// the end of the flattened outline and changes nothing before it. In an
/// empty outline the item lands at depth 0, otherwise at most one level
/// deeper than the entry that was last before.
pub proof fn lemma_outline_pushed_entries(toc: OutlineView, item: OutlineItem, level: u8)
    ensures
        outline_entries(outline_pushed(toc, item, level)) == outline_entries(toc)
            + item_entries(item, outline_push_depth(toc, level)),
        outline_entries(toc).len() == 0 ==> outline_push_depth(toc, level) == 0,
        outline_entries(toc).len() > 0 ==> outline_push_depth(toc, level)
            <= outline_entries(toc).last().depth + 1,
{
    let tops = toc.contents;
    if tops.len() > 0 {
        lemma_item_entries_depths(tops.last(), 0);
    }
    if tops.len() > 0 && level > toc.min_level {
        let last = tops.last();
        let grown = tops.update(tops.len() - 1, item_pushed(last, item, level));
        lemma_item_pushed_entries(last, item, level, 0);
        assert(grown.drop_last() =~= tops.drop_last());
    } else {
        assert(tops.push(item).drop_last() =~= tops);
    }
}

} // verus!
