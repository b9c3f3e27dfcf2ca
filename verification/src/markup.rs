//! The tag-emission interface that nodes render into, recorded as a list of
//! operations for a renderer to replay.

use vstd::prelude::*;

verus! {

/// One attribute of a node or of an opening tag: the key and its value.
pub type Attr = (&'static str, String);

/// An attribute as plain text.
pub type AttrView = (Seq<char>, Seq<char>);

/// The attributes as plain text, in order.
pub open spec fn attrs_view(attrs: Seq<Attr>) -> Seq<AttrView> {
    Seq::new(attrs.len(), |i: int| (attrs[i].0@, attrs[i].1@))
}

/// One call on the renderer.
#[derive(Debug, PartialEq, Eq)]
pub enum RenderOp {
    /// An opening tag with its attributes.
    Open { tag: String, attrs: Vec<Attr> },
    /// A closing tag.
    Close { tag: String },
    /// Text that the renderer escapes.
    Text { content: String },
    /// Text that is already escaped.
    TextRaw { content: String },
    /// A line break hint.
    Cr,
    /// The children of the node being rendered.
    Contents,
}

/// A renderer call as plain values.
pub enum MarkupEvent {
    Open { tag: Seq<char>, attrs: Seq<AttrView> },
    Close { tag: Seq<char> },
    Text { content: Seq<char> },
    TextRaw { content: Seq<char> },
    Cr,
    Contents,
}

/// A tag that opens without attributes.
pub open spec fn bare_open(tag: Seq<char>) -> MarkupEvent {
    MarkupEvent::Open { tag, attrs: Seq::empty() }
}

impl View for RenderOp {
    type V = MarkupEvent;

    open spec fn view(&self) -> MarkupEvent {
        match *self {
            RenderOp::Open { tag, attrs } => MarkupEvent::Open {
                tag: tag@,
                attrs: attrs_view(attrs@),
            },
            RenderOp::Close { tag } => MarkupEvent::Close { tag: tag@ },
            RenderOp::Text { content } => MarkupEvent::Text { content: content@ },
            RenderOp::TextRaw { content } => MarkupEvent::TextRaw { content: content@ },
            RenderOp::Cr => MarkupEvent::Cr,
            RenderOp::Contents => MarkupEvent::Contents,
        }
    }
}

/// A copy of `attrs` with the same keys and values.
pub fn clone_attrs(attrs: &Vec<Attr>) -> (copy: Vec<Attr>)
    ensures
        attrs_view(copy@) == attrs_view(attrs@),
{
    let mut copy: Vec<Attr> = Vec::new();
    let mut i: usize = 0;
    while i < attrs.len()
        invariant
            i <= attrs.len(),
            copy.len() == i,
            forall|j: int| 0 <= j < i ==> copy[j].0@ == attrs[j].0@ && copy[j].1@ == attrs[j].1@,
        decreases attrs.len() - i,
    {
        let key: &'static str = attrs[i].0;
        copy.push((key, attrs[i].1.clone()));
        i += 1;
    }
    copy
}

/// The sink that nodes render into. It records each call in order.
#[derive(Debug)]
pub struct RenderLog {
    pub ops: Vec<RenderOp>,
}

impl View for RenderLog {
    type V = Seq<MarkupEvent>;

    open spec fn view(&self) -> Seq<MarkupEvent> {
        Seq::new(self.ops.len() as nat, |i: int| self.ops[i]@)
    }
}

impl RenderLog {
    /// A sink with nothing recorded.
    pub fn new() -> (log: RenderLog)
        ensures
            log@ == Seq::<MarkupEvent>::empty(),
    {
        let log = RenderLog { ops: Vec::new() };
        log
    }

    fn record(&mut self, op: RenderOp)
        ensures
            final(self)@ == old(self)@.push(op@),
    {
        self.ops.push(op);
    }

    /// Writes an opening tag with attributes.
    pub fn open(&mut self, tag: &str, attrs: &Vec<Attr>)
        ensures
            final(self)@ == old(self)@.push(
                MarkupEvent::Open { tag: tag@, attrs: attrs_view(attrs@) },
            ),
    {
        self.record(RenderOp::Open { tag: String::from_str(tag), attrs: clone_attrs(attrs) });
    }

    /// Writes a closing tag.
    pub fn close(&mut self, tag: &str)
        ensures
            final(self)@ == old(self)@.push(MarkupEvent::Close { tag: tag@ }),
    {
        self.record(RenderOp::Close { tag: String::from_str(tag) });
    }

    /// Writes text that the renderer escapes.
    pub fn text(&mut self, content: &str)
        ensures
            final(self)@ == old(self)@.push(MarkupEvent::Text { content: content@ }),
    {
        self.record(RenderOp::Text { content: String::from_str(content) });
    }

    /// Writes text that is already escaped.
    pub fn text_raw(&mut self, content: &str)
        ensures
            final(self)@ == old(self)@.push(MarkupEvent::TextRaw { content: content@ }),
    {
        self.record(RenderOp::TextRaw { content: String::from_str(content) });
    }

    /// Writes a line break hint.
    pub fn cr(&mut self)
        ensures
            final(self)@ == old(self)@.push(MarkupEvent::Cr),
    {
        self.record(RenderOp::Cr);
    }

    /// Renders the children of the node that is being rendered.
    pub fn contents(&mut self)
        ensures
            final(self)@ == old(self)@.push(MarkupEvent::Contents),
    {
        self.record(RenderOp::Contents);
    }
}

} // verus!
