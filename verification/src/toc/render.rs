//! What an outline renders to.

use crate::markup::{attrs_view, bare_open, Attr, AttrView, MarkupEvent, RenderLog};
use crate::node::Node;
use crate::text::{followed_by, decimal, to_decimal};
use crate::toc::{unbox_ref, OutlineItem, OutlineView, TableOfContentsItem, TOC};
use vstd::prelude::*;

verus! {

/// What an entry renders to: a list item that holds a link to the entry's
/// slug and, where the entry has children, a nested ordered list of them.
pub open spec fn item_markup(item: OutlineItem) -> Seq<MarkupEvent>
    decreases item, 1int,
{
    seq![
        MarkupEvent::Cr,
        bare_open("li"@),
        MarkupEvent::Cr,
        MarkupEvent::Open { tag: "a"@, attrs: seq![("href"@, "#"@ + item.slug)] },
        MarkupEvent::Text { content: item.title },
        MarkupEvent::Close { tag: "a"@ },
    ] + (if item.children.len() != 0 {
        seq![MarkupEvent::Cr, bare_open("ol"@)] + items_markup(item.children) + seq![
            MarkupEvent::Cr,
            MarkupEvent::Close { tag: "ol"@ },
        ]
    } else {
        Seq::empty()
    }) + seq![MarkupEvent::Cr, MarkupEvent::Close { tag: "li"@ }]
}

/// What a list of entries renders to, one after the other.
pub open spec fn items_markup(items: Seq<OutlineItem>) -> Seq<MarkupEvent>
    decreases items, 0int,
{
    if items.len() == 0 {
        Seq::empty()
    } else {
        items_markup(items.drop_last()) + item_markup(items.last())
    }
}

/// What the heading above the list renders to: an `h` element of its level.
pub open spec fn heading_markup(heading: Option<(u8, Seq<char>)>) -> Seq<MarkupEvent> {
    match heading {
        Some(h) => seq![
            bare_open("h"@ + decimal(h.0 as nat)),
            MarkupEvent::Text { content: h.1 },
            MarkupEvent::Close { tag: "h"@ + decimal(h.0 as nat) },
            MarkupEvent::Cr,
        ],
        None => Seq::empty(),
    }
}

/// What an outline renders to, on a node with the attributes `attrs`: the
/// optional heading and the ordered list of entries, inside a `nav` element
/// where the outline is wrapped. The attributes go to the `nav` element where
/// there is one, otherwise to the list.
pub open spec fn outline_markup(toc: OutlineView, attrs: Seq<AttrView>) -> Seq<MarkupEvent> {
    seq![MarkupEvent::Cr] + (if toc.wrap_in_nav {
        seq![MarkupEvent::Open { tag: "nav"@, attrs }, MarkupEvent::Cr]
    } else {
        Seq::empty()
    }) + heading_markup(toc.toc_heading) + seq![
        MarkupEvent::Open {
            tag: "ol"@,
            attrs: if toc.wrap_in_nav {
                Seq::empty()
            } else {
                attrs
            },
        },
    ] + items_markup(toc.contents) + seq![MarkupEvent::Cr, MarkupEvent::Close { tag: "ol"@ }] + (
    if toc.wrap_in_nav {
        seq![MarkupEvent::Cr, MarkupEvent::Close { tag: "nav"@ }]
    } else {
        Seq::empty()
    }) + seq![MarkupEvent::Cr]
}

impl TableOfContentsItem {
    /// Renders the entry and all that is nested under it.
    pub fn render(&self, fmt: &mut RenderLog)
        ensures
            final(fmt)@ == old(fmt)@ + item_markup(self@),
        decreases self,
    {
        let none: Vec<Attr> = Vec::new();
        assert(attrs_view(none@) =~= Seq::empty());
        fmt.cr();
        fmt.open("li", &none);
        let link_href = followed_by("#", self.slug.as_str());
        let mut link: Vec<Attr> = Vec::new();
        link.push(("href", link_href));
        assert(attrs_view(link@) =~= seq![("href"@, "#"@ + self@.slug)]);
        fmt.cr();
        fmt.open("a", &link);
        fmt.text(self.title.as_str());
        fmt.close("a");
        let children = unbox_ref(&self.children);
        if children.len() != 0 {
            fmt.cr();
            fmt.open("ol", &none);
            let ghost opened = fmt@;
            let mut i: usize = 0;
            while i < children.len()
                invariant
                    i <= children.len(),
                    *children == *self.children,
                    fmt@ == opened + items_markup(self@.children.take(i as int)),
                decreases children.len() - i,
            {
                proof {
                    assert(self@.children.take(i as int + 1).drop_last() =~= self@.children.take(
                        i as int,
                    ));
                }
                children[i].render(fmt);
                i += 1;
            }
            assert(self@.children.take(i as int) =~= self@.children);
            fmt.cr();
            fmt.close("ol");
        }
        fmt.cr();
        fmt.close("li");
    }
}

impl TOC {
    /// Renders the outline that `node` carries.
    pub fn render(&self, node: &Node, fmt: &mut RenderLog)
        ensures
            final(fmt)@ == old(fmt)@ + outline_markup(self@, node@.attrs),
    {
        let none: Vec<Attr> = Vec::new();
        assert(attrs_view(none@) =~= Seq::empty());
        fmt.cr();
        if self.wrap_in_nav {
            fmt.open("nav", &node.attrs);
            fmt.cr();
        }
        if let Some(heading) = &self.toc_heading {
            let level: u8 = heading.0;
            let number = to_decimal(level as usize);
            let heading_tag = followed_by("h", number.as_str());
            fmt.open(heading_tag.as_str(), &none);
            fmt.text(heading.1.as_str());
            fmt.close(heading_tag.as_str());
            fmt.cr();
        }
        if self.wrap_in_nav {
            fmt.open("ol", &none);
        } else {
            fmt.open("ol", &node.attrs);
        }
        let ghost opened = fmt@;
        let mut i: usize = 0;
        while i < self.contents.len()
            invariant
                i <= self.contents.len(),
                fmt@ == opened + items_markup(self@.contents.take(i as int)),
            decreases self.contents.len() - i,
        {
            proof {
                assert(self@.contents.take(i as int + 1).drop_last() =~= self@.contents.take(
                    i as int,
                ));
            }
            self.contents[i].render(fmt);
            i += 1;
        }
        assert(self@.contents.take(i as int) =~= self@.contents);
        fmt.cr();
        fmt.close("ol");
        if self.wrap_in_nav {
            fmt.cr();
            fmt.close("nav");
        }
        fmt.cr();
    }
}

} // verus!
