//! Heading records and the outline assembled from them.

use crate::toc::entries::{
    item_entries, lemma_outline_pushed_entries, outline_entries, outline_push_depth, stepwise,
    OutlineEntry,
};
use crate::toc::{
    heading_view, outline_pushed, OutlineItem, OutlineView, TOCOptions, TableOfContentsItem, TOC,
};
use vstd::prelude::*;

verus! {

/// What the outline needs of one heading.
#[derive(Debug, PartialEq, Eq)]
pub struct Heading {
    pub level: u8,
    /// The text of the heading.
    pub title: String,
    /// The identifier that links lead to.
    pub slug: String,
}

/// A heading record as plain values.
pub struct HeadingView {
    pub level: u8,
    pub title: Seq<char>,
    pub slug: Seq<char>,
}

impl View for Heading {
    type V = HeadingView;

    open spec fn view(&self) -> HeadingView {
        HeadingView { level: self.level, title: self.title@, slug: self.slug@ }
    }
}

/// The plain values of a list of heading records.
pub open spec fn headings_view(headings: Seq<Heading>) -> Seq<HeadingView> {
    Seq::new(headings.len(), |i: int| headings[i]@)
}

/// The outline entry for a heading, with nothing nested under it yet.
pub open spec fn entry_for(heading: HeadingView) -> OutlineItem {
    OutlineItem {
        slug: heading.slug,
        title: heading.title,
        level: heading.level,
        children: Seq::empty(),
    }
}

/// Whether a heading takes part in the outline: all do but those of level 1,
/// which do only where the options admit titles.
pub open spec fn takes_part(heading: HeadingView, allow_titles: bool) -> bool {
    heading.level != 1 || allow_titles
}

/// The level that a heading is pushed with: its own, or 2 for a level-1
/// heading that is treated as a level-2 one.
pub open spec fn push_level(heading: HeadingView, title_as_h2: bool) -> u8 {
    if heading.level == 1 && title_as_h2 {
        2
    } else {
        heading.level
    }
}

/// The outline with no entries that the options start from.
pub open spec fn empty_outline(options: TOCOptions) -> OutlineView {
    OutlineView {
        contents: Seq::empty(),
        min_level: 6,
        wrap_in_nav: options.wrap_in_nav,
        toc_heading: heading_view(options.toc_heading),
    }
}

/// The outline of the given headings: each heading that takes part is
/// pushed, in document order, onto the outline of those before it.
pub open spec fn outline_of(headings: Seq<HeadingView>, options: TOCOptions) -> OutlineView
    decreases headings.len(),
{
    if headings.len() == 0 {
        empty_outline(options)
    } else {
        let before = outline_of(headings.drop_last(), options);
        let heading = headings.last();
        if takes_part(heading, options.allow_titles_in_toc) {
            outline_pushed(
                before,
                entry_for(heading),
                push_level(heading, options.treat_title_as_h2),
            )
        } else {
            before
        }
    }
}

impl TOC {
    /// Assembles the outline of `headings`, which are in document order.
    pub fn from_headings(headings: Vec<Heading>, options: &TOCOptions) -> (toc: TOC)
        ensures
            toc@ == outline_of(headings_view(headings@), *options),
    {
        let toc_heading = match &options.toc_heading {
            Some(heading) => Some((heading.0, heading.1.clone())),
            None => None,
        };
        let mut toc = TOC {
            contents: Vec::new(),
            min_level: 6,
            wrap_in_nav: options.wrap_in_nav,
            toc_heading,
        };
        assert(toc@.contents =~= Seq::empty());
        let ghost all = headings_view(headings@);
        let ghost records = headings@;
        for heading in it: headings
            invariant
                it.seq() == records,
                all == headings_view(records),
                toc@ == outline_of(all.take(it.index()), *options),
        {
            proof {
                assert(all.take(it.index() + 1).drop_last() =~= all.take(it.index()));
            }
            let takes_part = heading.level != 1 || options.allow_titles_in_toc;
            let level: u8 = if heading.level == 1 && options.treat_title_as_h2 {
                2
            } else {
                heading.level
            };
            if takes_part {
                let item = TableOfContentsItem {
                    title: heading.title,
                    slug: heading.slug,
                    level: heading.level,
                    children: Box::new(Vec::new()),
                };
                assert(item@.children =~= Seq::empty());
                toc.push(item, level);
            }
        }
        assert(all.take(all.len() as int) =~= all);
        toc
    }
}

/// The headings that take part in the outline, in document order.
pub open spec fn taking_part(headings: Seq<HeadingView>, allow_titles: bool) -> Seq<HeadingView> {
    headings.filter(|heading: HeadingView| takes_part(heading, allow_titles))
}

/// The flattened outline of a list of headings holds exactly one entry for
/// each heading that takes part, in document order and with that heading's
/// slug, title and level; its first entry is at depth 0, and no entry is more
/// than one level deeper than the entry before it.
pub proof fn lemma_outline_lists_headings(headings: Seq<HeadingView>, options: TOCOptions)
    ensures
        outline_entries(outline_of(headings, options)).len() == taking_part(
            headings,
            options.allow_titles_in_toc,
        ).len(),
        forall|i: int|
            0 <= i < outline_entries(outline_of(headings, options)).len() ==> {
                let entry = #[trigger] outline_entries(outline_of(headings, options))[i];
                let heading = taking_part(headings, options.allow_titles_in_toc)[i];
                entry.slug == heading.slug && entry.title == heading.title && entry.level
                    == heading.level
            },
        stepwise(outline_entries(outline_of(headings, options))),
    decreases headings.len(),
{
    let allow = options.allow_titles_in_toc;
    if headings.len() > 0 {
        let earlier = headings.drop_last();
        let heading = headings.last();
        lemma_outline_lists_headings(earlier, options);
        assert(earlier.push(heading) =~= headings);
        Seq::lemma_filter_push(earlier, heading, |heading: HeadingView| takes_part(heading, allow));
        if takes_part(heading, allow) {
            let before = outline_of(earlier, options);
            let level = push_level(heading, options.treat_title_as_h2);
            lemma_outline_pushed_entries(before, entry_for(heading), level);
        }
    }
}

/// Where every heading takes part, the flattened outline has as many entries
/// as there are headings.
pub proof fn lemma_outline_counts_headings(headings: Seq<HeadingView>, options: TOCOptions)
    requires
        forall|i: int| 0 <= i < headings.len() ==> takes_part(#[trigger] headings[i], options.allow_titles_in_toc),
    ensures
        outline_entries(outline_of(headings, options)).len() == headings.len(),
        stepwise(outline_entries(outline_of(headings, options))),
    decreases headings.len(),
{
    lemma_outline_lists_headings(headings, options);
    lemma_all_take_part(headings, options.allow_titles_in_toc);
}

proof fn lemma_all_take_part(headings: Seq<HeadingView>, allow_titles: bool)
    requires
        forall|i: int| 0 <= i < headings.len() ==> takes_part(#[trigger] headings[i], allow_titles),
    ensures
        taking_part(headings, allow_titles) == headings,
    decreases headings.len(),
{
    reveal(Seq::filter);
    if headings.len() > 0 {
        lemma_all_take_part(headings.drop_last(), allow_titles);
    }
}

} // verus!
