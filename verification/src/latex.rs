//! Formulas written in LaTeX between dollar signs, and their MathML.

pub mod commands;

use crate::latex::commands::{is_simple_command, simple_command};
use crate::markup::{MarkupEvent, RenderLog};
use crate::node::{KindView, Node, NodeKind, NodeView};
use crate::text::{
    byte_count, byte_length, char_index, char_index_at, chars_of, str_eq, string_of,
};
use pulldown_latex::config::{DisplayMode, MathStyle};
use pulldown_latex::{push_mathml, Parser, RenderConfig, Storage};
use vstd::prelude::*;

verus! {

/// A formula found in the text.
#[derive(Debug, PartialEq, Eq)]
pub struct LaTeXNode {
    /// The source between the delimiters.
    pub latex: String,
    /// Whether the formula is set within the line.
    pub inline: bool,
}

/// Which letters are set upright and which slanted.
#[derive(Debug, Clone, Copy, PartialEq, Eq)]
pub enum LetterStyle {
    /// As TeX does: all slanted but the capital Greek letters.
    TeX,
    /// All slanted.
    ISO,
    /// Only small Latin letters slanted.
    French,
    /// All upright.
    Upright,
}

/// The annotation as plain text.
pub open spec fn annotation_view(annotation: Option<&str>) -> Option<Seq<char>> {
    match annotation {
        Some(text) => Some(text@),
        None => None,
    }
}

/// The MathML that `pulldown_latex::push_mathml` writes for the events that
/// `pulldown_latex::Parser` reads from `latex`, set inline or as a block,
/// with the given style of letters, the annotation where there is one,
/// errors in the given colour, and the XML namespace where `xml` is set.
pub uninterp spec fn mathml_of(
    latex: Seq<char>,
    inline: bool,
    style: LetterStyle,
    annotation: Option<Seq<char>>,
    red: u8,
    green: u8,
    blue: u8,
    xml: bool,
) -> Seq<char>;

/// An ASCII character that is taken for a space.
pub open spec fn is_space(c: char) -> bool {
    c == ' ' || c == '\t' || c == '\n' || c == '\r' || c == '\u{b}' || c == '\u{c}'
}

/// An ASCII letter.
pub open spec fn is_letter(c: char) -> bool {
    ('a' <= c && c <= 'z') || ('A' <= c && c <= 'Z')
}

/// A character that may stand in a formula outside a command name: any
/// but the backslash, which starts a command, and the percent sign, which
/// starts a comment.
pub open spec fn is_plain(c: char) -> bool {
    c != '\\' && c != '%'
}

/// A character after which a closed group still counts as the last thing
/// before a command: an ASCII space, or any character outside ASCII, since
/// some of those are spaces too.
pub open spec fn is_skipped(c: char) -> bool {
    is_space(c) || (c as u32) >= 128
}

/// Whether `name` is a command that takes the groups after it: a fraction
/// or a root.
pub open spec fn takes_groups(name: Seq<char>) -> bool {
    name == "frac"@ || name == "sqrt"@
}

/// Whether the command `name` may stand where it stands, where
/// `after_close` says whether the last character before it that is not
/// skipped closes a group, and `next` is the character after it. A fraction or a
/// root must not come after a closed group and must have its group right
/// behind it; any other command must stand for one symbol or function name.
pub open spec fn command_fits(name: Seq<char>, after_close: bool, next: Option<char>) -> bool {
    if takes_groups(name) {
        !after_close && next == Some('{')
    } else {
        is_simple_command(name)
    }
}

/// Whether the formula is admitted from `at` on, where a command name began
/// at `name_start` if that is not negative, and `after_close` says whether
/// the last character that is not skipped closes a group.
pub open spec fn admitted_from(
    source: Seq<char>,
    at: int,
    name_start: int,
    after_close: bool,
) -> bool
    decreases source.len() - at, (if name_start >= 0 { 1int } else { 0int }),
{
    if at < 0 {
        false
    } else if at >= source.len() {
        name_start < 0 || command_fits(source.subrange(name_start, at), after_close, None)
    } else if name_start >= 0 {
        if is_letter(source[at]) {
            admitted_from(source, at + 1, name_start, after_close)
        } else {
            command_fits(source.subrange(name_start, at), after_close, Some(source[at]))
                && admitted_from(source, at, -1, false)
        }
    } else if source[at] == '\\' {
        admitted_from(source, at + 1, at + 1, after_close)
    } else {
        is_plain(source[at]) && admitted_from(
            source,
            at + 1,
            -1,
            if is_skipped(source[at]) {
                after_close
            } else {
                source[at] == '}'
            },
        )
    }
}

/// Whether a formula is admitted for rendering. It is where
/// - it has fewer than 2^32 characters,
/// - it holds no comment (no percent sign),
/// - every backslash is followed by the name of a command that stands for
///   one symbol or function name, or by `frac` or `sqrt`, and
/// - every `frac` and `sqrt` has its group right behind it and does not
///   come after a closed group, with nothing but spaces or characters
///   outside ASCII between.
///
/// On such a formula the parser reads no numbers, dimensions, colours or
/// definitions, slices its input only where it has just read an ASCII
/// character or a whole character, never takes a fraction or root as the
/// argument of another, and reads no root index, so that it does not call
/// itself more than a few times deep.
pub open spec fn formula_admitted(source: Seq<char>) -> bool {
    source.len() <= 0xFFFF_FFFF && admitted_from(source, 0, -1, false)
}

/// Calls `pulldown_latex::push_mathml` on a new `Parser` over `latex` and an
/// empty string. Errors in the source are rendered into the markup, and
/// writing into a string does not fail, so there is always markup. A source
/// that is not admitted is left out: on some of them the parser panics (on
/// a colour of six bytes that holds a longer character, for one) or calls
/// itself once for every root index or argument in a row.
#[verifier::external_body]
fn push_formula(
    latex: &str,
    inline: bool,
    style: LetterStyle,
    annotation: Option<&str>,
    red: u8,
    green: u8,
    blue: u8,
    xml: bool,
) -> (markup: Option<String>)
    requires
        formula_admitted(latex@),
    ensures
        markup is Some,
        markup matches Some(text) ==> text@ == mathml_of(latex@, inline, style, annotation_view(annotation), red, green, blue, xml),
{
    let store = Storage::new();
    let mut mathml = String::new();
    let display_mode = if inline { DisplayMode::Inline } else { DisplayMode::Block };
    let math_style = match style {
        LetterStyle::TeX => MathStyle::TeX,
        LetterStyle::ISO => MathStyle::ISO,
        LetterStyle::French => MathStyle::French,
        LetterStyle::Upright => MathStyle::Upright,
    };
    let error_color = (red, green, blue);
    let config = RenderConfig { display_mode, annotation, error_color, xml, math_style };
    match push_mathml(&mut mathml, Parser::new(latex, &store), config) {
        Ok(()) => Some(mathml),
        Err(_) => None,
    }
}

/// The MathML of a formula as this library renders it: letters as in TeX,
/// the source as annotation, errors in magenta, without the XML namespace.
pub open spec fn formula_markup(latex: Seq<char>, inline: bool) -> Seq<char> {
    mathml_of(latex, inline, LetterStyle::TeX, Some(latex), 255, 0, 127, false)
}

fn letter(c: char) -> (r: bool)
    ensures
        r == is_letter(c),
{
    ('a' <= c && c <= 'z') || ('A' <= c && c <= 'Z')
}

fn space(c: char) -> (r: bool)
    ensures
        r == is_space(c),
{
    c == ' ' || c == '\t' || c == '\n' || c == '\r' || c == '\u{b}' || c == '\u{c}'
}

fn plain(c: char) -> (r: bool)
    ensures
        r == is_plain(c),
{
    c != '\\' && c != '%'
}

fn skipped(c: char) -> (r: bool)
    ensures
        r == is_skipped(c),
{
    space(c) || c > '\u{7f}'
}

/// Whether the command in `chars[from..to]` may stand where it stands.
fn fits(chars: &Vec<char>, from: usize, to: usize, after_close: bool) -> (r: bool)
    requires
        from <= to <= chars.len(),
    ensures
        r == command_fits(
            chars@.subrange(from as int, to as int),
            after_close,
            if to < chars.len() {
                Some(chars[to as int])
            } else {
                None
            },
        ),
{
    let name = string_of(chars, from, to);
    let fraction = str_eq(name.as_str(), "frac");
    let root = str_eq(name.as_str(), "sqrt");
    if fraction || root {
        !after_close && to < chars.len() && chars[to] == '{'
    } else {
        simple_command(name.as_str())
    }
}

/// Whether a formula is admitted for rendering.
pub fn renders_safely(latex: &str) -> (safe: bool)
    ensures
        safe == formula_admitted(latex@),
{
    let chars = chars_of(latex);
    let n = chars.len();
    if n > 0xFFFF_FFFF {
        return false;
    }
    let mut at: usize = 0;
    let mut in_name = false;
    let mut name_start: usize = 0;
    let mut after_close = false;
    while at < n
        invariant
            at <= n,
            n == chars.len(),
            chars@ == latex@,
            in_name ==> name_start <= at,
            admitted_from(latex@, 0, -1, false) == admitted_from(
                latex@,
                at as int,
                if in_name {
                    name_start as int
                } else {
                    -1
                },
                after_close,
            ),
        decreases n - at, (if in_name { 1int } else { 0int }),
    {
        let c = chars[at];
        if in_name {
            if letter(c) {
                at += 1;
            } else {
                if !fits(&chars, name_start, at, after_close) {
                    return false;
                }
                in_name = false;
                after_close = false;
            }
        } else if c == '\\' {
            at += 1;
            in_name = true;
            name_start = at;
        } else {
            if !plain(c) {
                return false;
            }
            if !skipped(c) {
                after_close = c == '}';
            }
            at += 1;
        }
    }
    !in_name || fits(&chars, name_start, at, after_close)
}

/// Renders a formula as MathML. There is markup exactly where the formula
/// is admitted.
pub fn latex_render_mathml(latex: &str, inline: bool) -> (markup: Option<String>)
    ensures
        (markup is Some) == formula_admitted(latex@),
        markup matches Some(text) ==> text@ == formula_markup(latex@, inline),
{
    if renders_safely(latex) {
        push_formula(latex, inline, LetterStyle::TeX, Some(latex), 255, 0, 127, false)
    } else {
        None
    }
}

impl LaTeXNode {
    /// Writes the markup of a formula, which is already escaped; where there
    /// is none, nothing is written.
    pub fn render_markup(markup: Option<String>, fmt: &mut RenderLog)
        ensures
            final(fmt)@ == match markup {
                Some(text) => old(fmt)@.push(MarkupEvent::TextRaw { content: text@ }),
                None => old(fmt)@,
            },
    {
        match markup {
            Some(text) => {
                fmt.text_raw(text.as_str());
            },
            None => {},
        }
    }

    /// Renders the formula as MathML, where the formula is admitted;
    /// otherwise nothing is written.
    pub fn render(&self, node: &Node, fmt: &mut RenderLog)
        ensures
            final(fmt)@ == if formula_admitted(self.latex@) {
                old(fmt)@.push(
                    MarkupEvent::TextRaw { content: formula_markup(self.latex@, self.inline) },
                )
            } else {
                old(fmt)@
            },
    {
        let mathml = latex_render_mathml(self.latex.as_str(), self.inline);
        Self::render_markup(mathml, fmt);
    }
}

/// Whether `n` dollar signs stand at `at`, where `n` is 1 or 2.
pub open spec fn dollars_at(src: Seq<char>, at: int, n: int) -> bool {
    &&& 0 <= at
    &&& at + n <= src.len()
    &&& src[at] == '$'
    &&& n == 2 ==> src[at + 1] == '$'
}

/// The first index from `from` on and below `limit` at which `n` dollar
/// signs stand.
pub open spec fn find_dollars(src: Seq<char>, from: int, n: int, limit: int) -> Option<int>
    decreases limit - from,
{
    if from < 0 || from >= limit || from >= src.len() {
        None
    } else if dollars_at(src, from, n) {
        Some(from)
    } else {
        find_dollars(src, from + 1, n, limit)
    }
}

/// The formula that starts at `pos`, as its source, whether it is set
/// inline, and the number of characters that it takes with its delimiters.
/// A formula opens with two dollar signs, or else with one, which sets it
/// inline, and runs up to the next such delimiter that starts below
/// `pos_max`. Without that delimiter there is no formula.
pub open spec fn formula_at(src: Seq<char>, pos: int, pos_max: int) -> Option<
    (Seq<char>, bool, int),
> {
    if dollars_at(src, pos, 1) {
        let n: int = if dollars_at(src, pos, 2) {
            2
        } else {
            1
        };
        match find_dollars(src, pos + n, n, pos_max) {
            Some(end) => Some((src.subrange(pos + n, end), n == 1, end + n - pos)),
            None => None,
        }
    } else {
        None
    }
}

/// The node for a formula.
pub open spec fn formula_node(latex: Seq<char>, inline: bool) -> NodeView {
    NodeView {
        kind: KindView::Formula { latex, inline },
        attrs: Seq::empty(),
        children: Seq::empty(),
        origin: None,
    }
}

/// Dollar signs that are found stand within the text.
pub proof fn lemma_find_dollars_within(src: Seq<char>, from: int, n: int, limit: int)
    ensures
        find_dollars(src, from, n, limit) matches Some(end) ==> from <= end && end + n
            <= src.len(),
    decreases limit - from,
{
    if !(from < 0 || from >= limit || from >= src.len()) && !dollars_at(src, from, n) {
        lemma_find_dollars_within(src, from + 1, n, limit);
    }
}

/// The formula that starts at byte `byte_pos`, as its source, whether it is
/// set inline, and the number of bytes that it takes with its delimiters in
/// UTF-8, where its closing delimiter starts below byte `byte_max`. There is
/// none where no character starts at one of the two bytes.
pub open spec fn formula_at_byte(src: Seq<char>, byte_pos: int, byte_max: int) -> Option<
    (Seq<char>, bool, nat),
> {
    match (char_index(src, byte_pos), char_index(src, byte_max)) {
        (Some(pos), Some(pos_max)) => match formula_at(src, pos, pos_max) {
            Some((latex, inline, consumed)) => Some(
                (latex, inline, byte_count(src.subrange(pos, pos + consumed))),
            ),
            None => None,
        },
        _ => None,
    }
}

/// The rule that finds formulas in running text.
pub struct LaTeXScan;

impl LaTeXScan {
    /// Recognizes a formula at byte `byte_pos` of `src`, as `run` does at a
    /// character. On a match it returns the formula node and the number of
    /// bytes that the formula takes with its delimiters; there is no match
    /// either where no character starts at one of the two bytes or where the
    /// number of bytes cannot be held.
    pub fn run_at_byte(src: &str, byte_pos: usize, byte_max: usize) -> (found: Option<
        (Node, usize),
    >)
        ensures
            match formula_at_byte(src@, byte_pos as int, byte_max as int) {
                Some((latex, inline, bytes)) => if bytes <= usize::MAX {
                    found matches Some(hit) && hit.0@ == formula_node(latex, inline) && hit.1
                        == bytes
                } else {
                    found is None
                },
                None => found is None,
            },
    {
        let chars = chars_of(src);
        let pos = match char_index_at(&chars, byte_pos) {
            Some(pos) => pos,
            None => {
                return None;
            },
        };
        let pos_max = match char_index_at(&chars, byte_max) {
            Some(pos_max) => pos_max,
            None => {
                return None;
            },
        };
        let (node, consumed) = match Self::run(src, pos, pos_max) {
            Some(hit) => hit,
            None => {
                return None;
            },
        };
        proof {
            lemma_find_dollars_within(src@, pos + 1, 1, pos_max as int);
            lemma_find_dollars_within(src@, pos + 2, 2, pos_max as int);
        }
        match byte_length(&chars, pos, pos + consumed) {
            Some(bytes) => Some((node, bytes)),
            None => None,
        }
    }

    fn dollars(chars: &Vec<char>, at: usize, two: bool) -> (found: bool)
        ensures
            found == dollars_at(chars@, at as int, if two { 2int } else { 1int }),
    {
        let n = chars.len();
        if at >= n || chars[at] != '$' {
            return false;
        }
        if two {
            n - at >= 2 && chars[at + 1] == '$'
        } else {
            true
        }
    }

    /// Recognizes a formula at character `pos` of `src`. On a match it
    /// returns the formula node and the number of characters that the
    /// formula takes with its delimiters.
    pub fn run(src: &str, pos: usize, pos_max: usize) -> (found: Option<(Node, usize)>)
        ensures
            match formula_at(src@, pos as int, pos_max as int) {
                Some((latex, inline, consumed)) => found matches Some(hit) && hit.0@
                    == formula_node(latex, inline) && hit.1 == consumed,
                None => found is None,
            },
    {
        let chars = chars_of(src);
        let n = chars.len();
        if !Self::dollars(&chars, pos, false) {
            return None;
        }
        let two = Self::dollars(&chars, pos, true);
        let width: usize = if two {
            2
        } else {
            1
        };
        let start = pos + width;
        let mut at: usize = start;
        while at < pos_max && at < n
            invariant
                start <= at,
                start == pos + width,
                n == chars.len(),
                chars@ == src@,
                width == if two { 2usize } else { 1usize },
                dollars_at(chars@, pos as int, 1),
                two == dollars_at(chars@, pos as int, 2),
                find_dollars(chars@, start as int, width as int, pos_max as int) == find_dollars(
                    chars@,
                    at as int,
                    width as int,
                    pos_max as int,
                ),
            decreases n - at,
        {
            if Self::dollars(&chars, at, two) {
                let latex = string_of(&chars, start, at);
                let node = Node::new(NodeKind::Formula(LaTeXNode { latex, inline: !two }));
                return Some((node, at + width - pos));
            }
            at += 1;
        }
        None
    }
}

} // verus!
