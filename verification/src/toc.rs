//! The outline of a document: the nested table of contents and the options
//! that shape it.

pub mod detect;
pub mod entries;
pub mod headings;
pub mod render;

use unbox_box::BoxExt;
use vstd::prelude::*;

verus! {

/// One entry of the outline, with the entries nested under it.
#[derive(Debug, PartialEq, Eq)]
pub struct TableOfContentsItem {
    pub slug: String,
    pub title: String,
    pub level: u8,
    pub children: Box<Vec<TableOfContentsItem>>,
}

/// An outline entry as plain values.
pub struct OutlineItem {
    pub slug: Seq<char>,
    pub title: Seq<char>,
    pub level: u8,
    pub children: Seq<OutlineItem>,
}

/// The plain value of an entry and of everything nested under it.
pub open spec fn item_view(item: TableOfContentsItem) -> OutlineItem
    decreases item,
{
    OutlineItem {
        slug: item.slug@,
        title: item.title@,
        level: item.level,
        children: Seq::new(
            item.children.len() as nat,
            |i: int|
                if 0 <= i < item.children.len() {
                    item_view(item.children[i])
                } else {
                    arbitrary()
                },
        ),
    }
}

impl View for TableOfContentsItem {
    type V = OutlineItem;

    open spec fn view(&self) -> OutlineItem {
        item_view(*self)
    }
}

/// The plain values of a list of entries.
pub open spec fn items_view(items: Seq<TableOfContentsItem>) -> Seq<OutlineItem> {
    Seq::new(items.len(), |i: int| items[i]@)
}

/// Calls `BoxExt::unbox_ref`, which returns a reference to the boxed value.
#[verifier::external_body]
pub(crate) fn unbox_ref<T>(b: &Box<T>) -> (r: &T)
    ensures
        *r == **b,
{
    b.unbox_ref()
}

/// Calls `BoxExt::unbox_mut`, which returns a mutable reference to the boxed
/// value: what is written through it is what the box holds afterwards.
#[verifier::external_body]
fn unbox_mut<T>(b: &mut Box<T>) -> (r: &mut T)
    ensures
        *r == **old(b),
        **final(b) == *final(r),
{
    b.unbox_mut()
}

/// What shapes the outline and how it is rendered.
#[derive(Debug)]
pub struct TOCOptions {
    /// Whether level-1 headings take part in the outline.
    pub allow_titles_in_toc: bool,
    /// Whether a level-1 heading that takes part is nested as a level-2 one.
    pub treat_title_as_h2: bool,
    /// The class of the outline's container.
    pub toc_class: String,
    /// Whether the outline is wrapped in a `nav` element, which then carries
    /// the class in place of the list.
    pub wrap_in_nav: bool,
    /// The level and text of a heading rendered above the list, if any.
    pub toc_heading: Option<(u8, String)>,
}

impl Default for TOCOptions {
    fn default() -> (options: Self)
        ensures
            !options.allow_titles_in_toc,
            !options.treat_title_as_h2,
            options.toc_class@ == "table_of_contents"@,
            options.wrap_in_nav,
            options.toc_heading matches Some(heading) && heading.0 == 2 && heading.1@
                == "Contents"@,
    {
        TOCOptions {
            allow_titles_in_toc: false,
            treat_title_as_h2: false,
            toc_class: String::from_str("table_of_contents"),
            wrap_in_nav: true,
            toc_heading: Some((2, String::from_str("Contents"))),
        }
    }
}

/// The outline of a document.
#[derive(Debug, PartialEq, Eq)]
pub struct TOC {
    /// The top-level entries, in document order.
    pub contents: Vec<TableOfContentsItem>,
    /// The current level of the top branch: the level that the last
    /// top-level entry was pushed with.
    pub min_level: u8,
    pub wrap_in_nav: bool,
    pub toc_heading: Option<(u8, String)>,
}

/// An outline as plain values.
pub struct OutlineView {
    pub contents: Seq<OutlineItem>,
    pub min_level: u8,
    pub wrap_in_nav: bool,
    pub toc_heading: Option<(u8, Seq<char>)>,
}

/// The heading above the list as plain values.
pub open spec fn heading_view(heading: Option<(u8, String)>) -> Option<(u8, Seq<char>)> {
    match heading {
        Some(h) => Some((h.0, h.1@)),
        None => None,
    }
}

impl View for TOC {
    type V = OutlineView;

    open spec fn view(&self) -> OutlineView {
        OutlineView {
            contents: items_view(self.contents@),
            min_level: self.min_level,
            wrap_in_nav: self.wrap_in_nav,
            toc_heading: heading_view(self.toc_heading),
        }
    }
}

/// `parent` after `item` was pushed as a heading of the given level. The
/// current level of an entry's branch is the level of its last child. Where
/// the entry has a child and the level is deeper than that current level,
/// the item goes down into the last child and is tried there again;
/// otherwise it becomes the last child.
pub open spec fn item_pushed(parent: OutlineItem, item: OutlineItem, level: u8) -> OutlineItem
    decreases parent,
{
    if parent.children.len() > 0 && level > parent.children.last().level {
        OutlineItem {
            children: parent.children.update(
                parent.children.len() - 1,
                item_pushed(parent.children.last(), item, level),
            ),
            ..parent
        }
    } else {
        OutlineItem { children: parent.children.push(item), ..parent }
    }
}

impl TableOfContentsItem {
    /// Nests `item` under this entry as a heading of the given level.
    pub fn push(&mut self, item: TableOfContentsItem, level: u8)
        ensures
            final(self)@ == item_pushed(old(self)@, item@, level),
        decreases *old(self),
    {
        let child_count = unbox_ref(&self.children).len();
        proof {
            if child_count != 0 {
                assert(self@.children.last() == self.children[child_count - 1]@);
            }
        }
        if child_count != 0 && level > unbox_ref(&self.children)[child_count - 1].level {
            let children = unbox_mut(&mut self.children);
            children[child_count - 1].push(item, level);
            assert(self@.children =~= old(self)@.children.update(
                child_count - 1,
                item_pushed(old(self)@.children.last(), item@, level),
            ));
            return ;
        }
        unbox_mut(&mut self.children).push(item);
        assert(self@.children =~= old(self)@.children.push(item@));
    }
}

/// The outline after `item` was pushed as a heading of the given level. The
/// current level of the top branch is the level that the last top-level
/// entry was pushed with. Where the outline has an entry and the level is
/// deeper than that current level, the item goes down into the last
/// top-level entry and is tried there again; otherwise it becomes the last
/// top-level entry, and the level the current one.
pub open spec fn outline_pushed(toc: OutlineView, item: OutlineItem, level: u8) -> OutlineView {
    if toc.contents.len() > 0 && level > toc.min_level {
        OutlineView {
            contents: toc.contents.update(
                toc.contents.len() - 1,
                item_pushed(toc.contents.last(), item, level),
            ),
            ..toc
        }
    } else {
        OutlineView { contents: toc.contents.push(item), min_level: level, ..toc }
    }
}

impl TOC {
    /// Places `item` in the outline as a heading of the given level.
    pub fn push(&mut self, item: TableOfContentsItem, level: u8)
        ensures
            final(self)@ == outline_pushed(old(self)@, item@, level),
    {
        let child_count = self.contents.len();
        if child_count != 0 && level > self.min_level {
            self.contents[child_count - 1].push(item, level);
            assert(self@.contents =~= old(self)@.contents.update(
                child_count - 1,
                item_pushed(old(self)@.contents.last(), item@, level),
            ));
            return ;
        }
        self.min_level = level;
        self.contents.push(item);
        assert(self@.contents =~= old(self)@.contents.push(item@));
    }
}

} // verus!
