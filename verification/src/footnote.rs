//! Footnotes: the options, and the values that reference, definition and
//! list nodes carry.

pub mod count;
pub mod group;
pub mod listing;
pub mod render;
pub mod runs;
pub mod scan;

use vstd::prelude::*;

verus! {

/// Identifier prefixes, classes and the back-reference glyph used when
/// footnotes are scanned and rendered.
#[derive(Debug)]
pub struct FootnoteOptions {
    /// Prefix of the ids of definitions.
    pub fn_def_id_pref: String,
    /// Prefix of the ids of references.
    pub fn_ref_id_pref: String,
    /// Text of a link from a definition back to a reference.
    pub fn_br_text: String,
    /// Class of such a link.
    pub fn_br_class: String,
    /// Class of a definition.
    pub fn_def_class: String,
    /// Class of a reference.
    pub fn_ref_class: String,
    /// Class of a list of grouped definitions.
    pub fn_list_class: String,
}

impl Default for FootnoteOptions {
    fn default() -> (options: Self)
        ensures
            options.fn_def_class@ == "footnotes-def"@,
            options.fn_def_id_pref@ == "fnd"@,
            options.fn_br_text@ == "&#8593;"@,
            options.fn_br_class@ == "footnote-back"@,
            options.fn_ref_id_pref@ == "fnr"@,
            options.fn_ref_class@ == "footnotes-ref"@,
            options.fn_list_class@ == "footnotes-list"@,
    {
        FootnoteOptions {
            fn_def_class: String::from_str("footnotes-def"),
            fn_def_id_pref: String::from_str("fnd"),
            fn_br_text: String::from_str("&#8593;"),
            fn_br_class: String::from_str("footnote-back"),
            fn_ref_id_pref: String::from_str("fnr"),
            fn_ref_class: String::from_str("footnotes-ref"),
            fn_list_class: String::from_str("footnotes-list"),
        }
    }
}

/// An inline marker that points at a definition.
#[derive(Debug, PartialEq, Eq)]
pub struct FootnoteReference {
    /// The label between the brackets.
    pub label: String,
    /// Which reference to its label this is, counted from 1 in document
    /// order; 0 until the references are counted.
    pub count: usize,
}

/// A reference as plain values.
pub struct ReferenceView {
    pub label: Seq<char>,
    pub count: nat,
}

impl View for FootnoteReference {
    type V = ReferenceView;

    open spec fn view(&self) -> ReferenceView {
        ReferenceView { label: self.label@, count: self.count as nat }
    }
}

/// The out-of-line text of a footnote. Its content is the node's children.
#[derive(Debug, PartialEq, Eq)]
pub struct FootnoteDefinition {
    /// The label the definition was written with.
    pub id: String,
    /// How many references point at the definition.
    pub count: usize,
    /// Text of a link back to a reference.
    pub br_text: String,
    /// Class of such a link.
    pub br_class: String,
    /// What the id of each reference to this definition starts with; the
    /// reference's number follows.
    pub ref_id_prefix: String,
}

/// A definition as plain values.
pub struct DefinitionView {
    pub id: Seq<char>,
    pub count: nat,
    pub br_text: Seq<char>,
    pub br_class: Seq<char>,
    pub ref_id_prefix: Seq<char>,
}

impl View for FootnoteDefinition {
    type V = DefinitionView;

    open spec fn view(&self) -> DefinitionView {
        DefinitionView {
            id: self.id@,
            count: self.count as nat,
            br_text: self.br_text@,
            br_class: self.br_class@,
            ref_id_prefix: self.ref_id_prefix@,
        }
    }
}

/// A list of adjacent definitions, with the identifier of its group. The
/// definitions are the node's children.
#[derive(Debug, PartialEq, Eq)]
pub struct FootnoteList(pub usize);

} // verus!
