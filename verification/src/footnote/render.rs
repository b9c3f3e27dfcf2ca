//! What references, definitions and lists of definitions render to.

use crate::footnote::{
    DefinitionView, FootnoteDefinition, FootnoteList, FootnoteReference, ReferenceView,
};
use crate::markup::{attrs_view, bare_open, Attr, AttrView, MarkupEvent, RenderLog};
use crate::node::Node;
use crate::text::{decimal, push_decimal};
use vstd::prelude::*;

verus! {

/// What a reference renders to, on a node with the attributes `attrs`: a
/// link that shows the label.
pub open spec fn reference_markup(reference: ReferenceView, attrs: Seq<AttrView>) -> Seq<
    MarkupEvent,
> {
    seq![
        MarkupEvent::Open { tag: "a"@, attrs },
        MarkupEvent::Text { content: reference.label },
        MarkupEvent::Close { tag: "a"@ },
    ]
}

/// The links from a definition back to its first `n` references, in order.
pub open spec fn back_links(definition: DefinitionView, n: nat) -> Seq<MarkupEvent>
    decreases n,
{
    if n == 0 {
        Seq::empty()
    } else {
        back_links(definition, (n - 1) as nat) + seq![
            MarkupEvent::Open {
                tag: "a"@,
                attrs: seq![
                    ("href"@, definition.ref_id_prefix + decimal(n)),
                    ("class"@, definition.br_class),
                ],
            },
            MarkupEvent::TextRaw { content: definition.br_text },
            MarkupEvent::Close { tag: "a"@ },
            MarkupEvent::Cr,
        ]
    }
}

/// What a definition renders to, on a node with the attributes `attrs`: a
/// list item with one link back for each reference counted, the label in
/// bold, a colon, and the node's children.
pub open spec fn definition_markup(definition: DefinitionView, attrs: Seq<AttrView>) -> Seq<
    MarkupEvent,
> {
    seq![MarkupEvent::Open { tag: "li"@, attrs }, MarkupEvent::Cr] + back_links(
        definition,
        definition.count,
    ) + seq![
        bare_open("strong"@),
        MarkupEvent::Text { content: definition.id },
        MarkupEvent::Close { tag: "strong"@ },
        MarkupEvent::Text { content: ":"@ },
        MarkupEvent::Cr,
        MarkupEvent::Contents,
        MarkupEvent::Cr,
        MarkupEvent::Close { tag: "li"@ },
        MarkupEvent::Cr,
    ]
}

/// What a list of definitions renders to, on a node with the attributes
/// `attrs`: an unordered list around the node's children.
pub open spec fn list_markup(attrs: Seq<AttrView>) -> Seq<MarkupEvent> {
    seq![
        MarkupEvent::Cr,
        MarkupEvent::Open { tag: "ul"@, attrs },
        MarkupEvent::Cr,
        MarkupEvent::Contents,
        MarkupEvent::Close { tag: "ul"@ },
        MarkupEvent::Cr,
    ]
}

impl FootnoteReference {
    /// Renders the reference that `node` carries.
    pub fn render(&self, node: &Node, fmt: &mut RenderLog)
        ensures
            final(fmt)@ == old(fmt)@ + reference_markup(self@, node@.attrs),
    {
        fmt.open("a", &node.attrs);
        fmt.text(self.label.as_str());
        fmt.close("a");
    }
}

impl FootnoteDefinition {
    /// Renders the definition that `node` carries.
    pub fn render(&self, node: &Node, fmt: &mut RenderLog)
        ensures
            final(fmt)@ == old(fmt)@ + definition_markup(self@, node@.attrs),
    {
        fmt.open("li", &node.attrs);
        fmt.cr();
        let ghost opened = fmt@;
        let mut i: usize = 0;
        while i < self.count
            invariant
                i <= self.count,
                fmt@ == opened + back_links(self@, i as nat),
            decreases self.count - i,
        {
            let mut fn_ref = self.ref_id_prefix.clone();
            push_decimal(&mut fn_ref, i + 1);
            let mut link: Vec<Attr> = Vec::new();
            link.push(("href", fn_ref));
            link.push(("class", self.br_class.clone()));
            proof {
                assert(attrs_view(link@) =~= seq![
                    ("href"@, self@.ref_id_prefix + decimal((i + 1) as nat)),
                    ("class"@, self@.br_class),
                ]);
            }
            fmt.open("a", &link);
            fmt.text_raw(self.br_text.as_str());
            fmt.close("a");
            fmt.cr();
            i += 1;
        }
        let none: Vec<Attr> = Vec::new();
        assert(attrs_view(none@) =~= Seq::empty());
        fmt.open("strong", &none);
        fmt.text(self.id.as_str());
        fmt.close("strong");
        fmt.text(":");
        fmt.cr();
        fmt.contents();
        fmt.cr();
        fmt.close("li");
        fmt.cr();
    }
}

impl FootnoteList {
    /// Renders the list that `node` carries.
    pub fn render(&self, node: &Node, fmt: &mut RenderLog)
        ensures
            final(fmt)@ == old(fmt)@ + list_markup(node@.attrs),
    {
        fmt.cr();
        fmt.open("ul", &node.attrs);
        fmt.cr();
        fmt.contents();
        fmt.close("ul");
        fmt.cr();
    }
}

} // verus!
