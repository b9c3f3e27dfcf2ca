//! Recognizing reference markers in running text and definitions at the
//! start of a line.

use crate::footnote::{
    DefinitionView, FootnoteDefinition, FootnoteOptions, FootnoteReference, ReferenceView,
};
use crate::node::{KindView, Node, NodeKind, NodeView};
use crate::text::{
    byte_count, byte_length, char_index, char_index_at, chars_of, followed_by, slug_of, sluggify,
    string_of,
};
use vstd::prelude::*;

verus! {

/// The index of the first closing bracket at or after `from`. Where
/// `escapes` is set, a bracket that follows a backslash does not count.
pub open spec fn find_close(chars: Seq<char>, from: int, escapes: bool) -> Option<int>
    decreases chars.len() - from,
{
    if from < 0 || from >= chars.len() {
        None
    } else if chars[from] == ']' && !(escapes && from > 0 && chars[from - 1] == '\\') {
        Some(from)
    } else {
        find_close(chars, from + 1, escapes)
    }
}

/// Finds the first closing bracket at or after `from`.
pub fn scan_close(chars: &Vec<char>, from: usize, escapes: bool) -> (found: Option<usize>)
    ensures
        match found {
            Some(end) => from <= end < chars.len() && find_close(chars@, from as int, escapes)
                == Some(end as int),
            None => find_close(chars@, from as int, escapes) is None,
        },
{
    let mut i: usize = from;
    while i < chars.len()
        invariant
            from <= i,
            find_close(chars@, from as int, escapes) == find_close(chars@, i as int, escapes),
        decreases chars.len() - i,
    {
        if chars[i] == ']' && !(escapes && i > 0 && chars[i - 1] == '\\') {
            return Some(i);
        }
        i += 1;
    }
    None
}

/// Whether the two characters that open a footnote marker stand at `pos`.
pub open spec fn marker_at(src: Seq<char>, pos: int) -> bool {
    0 <= pos && pos + 2 <= src.len() && src[pos] == '[' && src[pos + 1] == '^'
}

/// The reference marker that starts at `pos`, as its label and the number
/// of characters that the whole marker takes. There is one where a footnote
/// marker opens at `pos`, the character before it is neither a line break
/// nor a backslash, and an unescaped closing bracket follows; the label is
/// what stands between the caret and the first such bracket.
pub open spec fn reference_at(src: Seq<char>, pos: int) -> Option<(Seq<char>, int)> {
    if marker_at(src, pos) && !(pos > 0 && (src[pos - 1] == '\n' || src[pos - 1] == '\\')) {
        match find_close(src, pos + 2, true) {
            Some(end) => Some((src.subrange(pos + 2, end), end + 1 - pos)),
            None => None,
        }
    } else {
        None
    }
}

/// The node for a reference with the given label: not counted yet, with the
/// class of references and a link to the definition's anchor.
pub open spec fn reference_node(label: Seq<char>, options: FootnoteOptions) -> NodeView {
    NodeView {
        kind: KindView::Reference(ReferenceView { label, count: 0 }),
        attrs: seq![
            ("class"@, options.fn_ref_class@),
            ("href"@, "#"@ + options.fn_def_id_pref@ + "-"@ + slug_of(label)),
        ],
        children: Seq::empty(),
        origin: None,
    }
}

/// A closing bracket that is found stands at or after the index searched
/// from, and within the text.
pub proof fn lemma_find_close_within(chars: Seq<char>, from: int, escapes: bool)
    ensures
        find_close(chars, from, escapes) matches Some(end) ==> from <= end < chars.len(),
    decreases chars.len() - from,
{
    if 0 <= from < chars.len() && !(chars[from] == ']' && !(escapes && from > 0 && chars[from - 1]
        == '\\')) {
        lemma_find_close_within(chars, from + 1, escapes);
    }
}

/// The reference marker that starts at byte `byte_pos`, as its label and
/// the number of bytes that the whole marker takes in UTF-8. There is none
/// where no character starts at that byte.
pub open spec fn reference_at_byte(src: Seq<char>, byte_pos: int) -> Option<(Seq<char>, nat)> {
    match char_index(src, byte_pos) {
        Some(pos) => match reference_at(src, pos) {
            Some((label, consumed)) => Some(
                (label, byte_count(src.subrange(pos, pos + consumed))),
            ),
            None => None,
        },
        None => None,
    }
}

/// The rule that finds references in running text.
pub struct FootnoteRefsInlinRule;

impl FootnoteRefsInlinRule {
    /// Recognizes a reference marker at byte `byte_pos` of `src`, as `run`
    /// does at a character. On a match it returns the reference node and
    /// the number of bytes that the marker takes; there is no match either
    /// where no character starts at that byte or where the number of bytes
    /// cannot be held.
    pub fn run_at_byte(src: &str, byte_pos: usize, options: &FootnoteOptions) -> (found: Option<
        (Node, usize),
    >)
        ensures
            match reference_at_byte(src@, byte_pos as int) {
                Some((label, bytes)) => if bytes <= usize::MAX {
                    found matches Some(hit) && hit.0@ == reference_node(label, *options) && hit.1
                        == bytes
                } else {
                    found is None
                },
                None => found is None,
            },
    {
        let chars = chars_of(src);
        let pos = match char_index_at(&chars, byte_pos) {
            Some(pos) => pos,
            None => {
                return None;
            },
        };
        let (node, consumed) = match Self::run(src, pos, options) {
            Some(hit) => hit,
            None => {
                return None;
            },
        };
        proof {
            lemma_find_close_within(src@, pos + 2, true);
        }
        match byte_length(&chars, pos, pos + consumed) {
            Some(bytes) => Some((node, bytes)),
            None => None,
        }
    }

    /// Recognizes a reference marker at character `pos` of `src`. On a match
    /// it returns the reference node and the number of characters that the
    /// marker takes; otherwise the text is left to other rules.
    pub fn run(src: &str, pos: usize, options: &FootnoteOptions) -> (found: Option<(Node, usize)>)
        ensures
            match reference_at(src@, pos as int) {
                Some((label, consumed)) => found matches Some(hit) && hit.0@ == reference_node(
                    label,
                    *options,
                ) && hit.1 == consumed,
                None => found is None,
            },
    {
        let chars = chars_of(src);
        let n = chars.len();
        if pos >= n || n - pos < 2 {
            return None;
        }
        if chars[pos] != '[' || chars[pos + 1] != '^' {
            return None;
        }
        if pos > 0 && (chars[pos - 1] == '\n' || chars[pos - 1] == '\\') {
            return None;
        }
        let end = match scan_close(&chars, pos + 2, true) {
            Some(end) => end,
            None => {
                return None;
            },
        };
        let label = string_of(&chars, pos + 2, end);
        let slug = sluggify(label.as_str());
        let mut href = followed_by("#", options.fn_def_id_pref.as_str());
        href.append("-");
        href.append(slug.as_str());
        let mut node = Node::new(NodeKind::Reference(FootnoteReference { label, count: 0 }));
        assert(node@.attrs.len() == 0);
        node.attrs.push(("class", options.fn_ref_class.clone()));
        node.attrs.push(("href", href));
        proof {
            assert(node@.attrs =~= reference_node(label@, *options).attrs);
        }
        Some((node, end + 1 - pos))
    }
}

/// The label of the definition that `line` starts, if it starts one: the
/// line begins with a footnote marker whose first closing bracket is
/// followed by a colon, and the label is what stands between the caret and
/// that bracket.
pub open spec fn definition_label(line: Seq<char>) -> Option<Seq<char>> {
    if marker_at(line, 0) {
        match find_close(line, 2, false) {
            Some(end) => if end + 1 < line.len() && line[end + 1] == ':' {
                Some(line.subrange(2, end))
            } else {
                None
            },
            None => None,
        }
    } else {
        None
    }
}

/// The node for a definition with the given label: not counted yet and
/// without content, with its anchor and the class of definitions.
pub open spec fn definition_node(label: Seq<char>, options: FootnoteOptions) -> NodeView {
    NodeView {
        kind: KindView::Definition(
            DefinitionView {
                id: label,
                count: 0,
                br_text: options.fn_br_text@,
                br_class: options.fn_br_class@,
                ref_id_prefix: options.fn_ref_id_pref@ + "-"@ + slug_of(label) + "-"@,
            },
        ),
        attrs: seq![
            ("id"@, options.fn_def_id_pref@ + "-"@ + slug_of(label)),
            ("class"@, options.fn_def_class@),
        ],
        children: Seq::empty(),
        origin: None,
    }
}

/// What a definition changes of the block parser's cursor while its content
/// is parsed.
#[derive(Debug, Clone, Copy, PartialEq, Eq)]
pub struct BlockCursor {
    /// The current line.
    pub line: usize,
    /// The byte offset of the first character of the current line that is
    /// not taken for a space.
    pub first_nonspace: usize,
    /// The indent of that character.
    pub indent_nonspace: i32,
    /// The indent that content must have to belong to the current block.
    pub blk_indent: usize,
}

/// The rule that finds definitions at the start of a line.
pub struct FootnoteDefsBlockRule;

impl FootnoteDefsBlockRule {
    /// The label of the definition that `line` starts, if it starts one.
    pub fn get_label(line: &str) -> (label: Option<String>)
        ensures
            match definition_label(line@) {
                Some(expected) => label matches Some(text) && text@ == expected,
                None => label is None,
            },
    {
        let chars = chars_of(line);
        let n = chars.len();
        if n < 2 || chars[0] != '[' || chars[1] != '^' {
            return None;
        }
        let end = match scan_close(&chars, 2, false) {
            Some(end) => end,
            None => {
                return None;
            },
        };
        if n - end < 2 || chars[end + 1] != ':' {
            return None;
        }
        Some(string_of(&chars, 2, end))
    }

    /// Recognizes a definition at the start of `line`. On a match it returns
    /// the definition node, still without content.
    pub fn run(line: &str, options: &FootnoteOptions) -> (found: Option<Node>)
        ensures
            match definition_label(line@) {
                Some(label) => found matches Some(node) && node@ == definition_node(label, *options),
                None => found is None,
            },
    {
        let label = match Self::get_label(line) {
            Some(label) => label,
            None => {
                return None;
            },
        };
        let slug = sluggify(label.as_str());
        let mut ref_id_prefix = followed_by(options.fn_ref_id_pref.as_str(), "-");
        ref_id_prefix.append(slug.as_str());
        ref_id_prefix.append("-");
        let mut id = followed_by(options.fn_def_id_pref.as_str(), "-");
        id.append(slug.as_str());
        let mut node = Node::new(
            NodeKind::Definition(
                FootnoteDefinition {
                    id: label,
                    count: 0,
                    br_text: options.fn_br_text.clone(),
                    br_class: options.fn_br_class.clone(),
                    ref_id_prefix,
                },
            ),
        );
        assert(node@.attrs.len() == 0);
        node.attrs.push(("id", id));
        node.attrs.push(("class", options.fn_def_class.clone()));
        proof {
            assert(node@.attrs =~= definition_node(label@, *options).attrs);
        }
        Some(node)
    }

    /// The cursor for the content of a definition with the given label: it
    /// skips the marker on the current line, and content has to be indented
    /// by four columns more.
    pub fn narrow(cursor: &BlockCursor, label: &str) -> (inner: BlockCursor)
        requires
            cursor.first_nonspace + 5 + label.len() <= usize::MAX,
            cursor.indent_nonspace + 5 <= i32::MAX,
            cursor.blk_indent + 4 <= usize::MAX,
        ensures
            inner.line == cursor.line,
            inner.first_nonspace == cursor.first_nonspace + 5 + label.len(),
            inner.indent_nonspace == cursor.indent_nonspace + 5,
            inner.blk_indent == cursor.blk_indent + 4,
    {
        BlockCursor {
            line: cursor.line,
            first_nonspace: cursor.first_nonspace + 5 + label.len(),
            indent_nonspace: cursor.indent_nonspace + 5,
            blk_indent: cursor.blk_indent + 4,
        }
    }

    /// The cursor to go on with once the content is parsed, which is the one
    /// saved before, and the number of lines that the definition takes, which
    /// is how far the content's parser got beyond the saved line.
    pub fn restore(saved: &BlockCursor, reached: usize) -> (after: (BlockCursor, usize))
        requires
            saved.line <= reached,
        ensures
            after.0 == *saved,
            after.1 == reached - saved.line,
    {
        (
            BlockCursor {
                line: saved.line,
                first_nonspace: saved.first_nonspace,
                indent_nonspace: saved.indent_nonspace,
                blk_indent: saved.blk_indent,
            },
            reached - saved.line,
        )
    }
}

} // verus!
