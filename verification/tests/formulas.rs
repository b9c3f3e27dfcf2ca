use md_extras::latex::{latex_render_mathml, renders_safely, LaTeXNode, LaTeXScan};
use md_extras::markup::{RenderLog, RenderOp};
use md_extras::node::{Node, NodeKind};

fn formula(latex: &str, inline: bool) -> Node {
    Node {
        kind: NodeKind::Formula(LaTeXNode { latex: latex.to_string(), inline }),
        attrs: Vec::new(),
        children: Vec::new(),
        origin: None,
    }
}

#[test]
fn inline_formula_between_single_dollars() {
    assert_eq!(LaTeXScan::run("$x^2$ and", 0, 9), Some((formula("x^2", true), 5)));
    assert_eq!(LaTeXScan::run("a $b$", 2, 5), Some((formula("b", true), 3)));
}

#[test]
fn block_formula_between_double_dollars() {
    assert_eq!(LaTeXScan::run("$$x + y$$", 0, 9), Some((formula("x + y", false), 9)));
    assert_eq!(LaTeXScan::run("$$a$b$$", 0, 7), Some((formula("a$b", false), 7)));
}

#[test]
fn formula_may_be_empty() {
    assert_eq!(LaTeXScan::run("$$$$", 0, 4), Some((formula("", false), 4)));
}

#[test]
fn formula_needs_its_closing_delimiter() {
    assert_eq!(LaTeXScan::run("$x", 0, 2), None);
    assert_eq!(LaTeXScan::run("$", 0, 1), None);
    assert_eq!(LaTeXScan::run("$$x$", 0, 4), None);
    assert_eq!(LaTeXScan::run("$$", 0, 2), None);
}

#[test]
fn formula_must_close_below_the_limit() {
    assert_eq!(LaTeXScan::run("$x$", 0, 2), None);
    assert_eq!(LaTeXScan::run("$x$", 0, 3), Some((formula("x", true), 3)));
    assert_eq!(LaTeXScan::run("$x$", 0, 300), Some((formula("x", true), 3)));
}

#[test]
fn no_formula_without_a_dollar_sign() {
    assert_eq!(LaTeXScan::run("x$y$", 0, 4), None);
    assert_eq!(LaTeXScan::run("$y$", 3, 3), None);
    assert_eq!(LaTeXScan::run("", 0, 0), None);
}

#[test]
fn formula_is_counted_in_characters() {
    assert_eq!(LaTeXScan::run("é$π$", 1, 4), Some((formula("π", true), 3)));
}

#[test]
fn mathml_is_made_of_the_source() {
    let inline = latex_render_mathml("x^2", true).unwrap();
    assert_ne!(inline, "x^2");
    assert!(inline.starts_with("<math display=\"inline\">"));
    assert!(inline.ends_with("</math>"));
    assert!(inline.contains("<msup>"));
    assert!(inline.contains("x^2</annotation>"));
    let block = latex_render_mathml("x^2", false).unwrap();
    assert!(block.starts_with("<math display=\"block\">"));
    assert_ne!(inline, block);
}

#[test]
fn mathml_marks_errors_in_magenta() {
    let markup = latex_render_mathml("x^", true).unwrap();
    assert!(markup.contains("<merror style=\"border-color: #ff07f\">"));
    assert!(latex_render_mathml("a}b", false).unwrap().contains("<merror"));
}

#[test]
fn commands_for_symbols_fractions_and_roots_are_rendered() {
    let symbols = latex_render_mathml("\\alpha+\\beta \\leq \\sin x", true).unwrap();
    assert!(symbols.contains("α"));
    assert!(symbols.contains("β"));
    assert!(symbols.contains("sin"));
    assert!(!symbols.contains("<merror"));
    let fraction = latex_render_mathml("x^\\frac{1}{\\sqrt{n}}", false).unwrap();
    assert!(fraction.contains("<mfrac>"));
    assert!(fraction.contains("<msqrt>"));
    assert!(!fraction.contains("<merror"));
}

#[test]
fn formulas_that_are_not_admitted_have_no_markup() {
    // A colour of six bytes that holds a character of two.
    assert_eq!(latex_render_mathml("\\color{#1é234}", true), None);
    assert_eq!(latex_render_mathml("\\color{red}x", true), None);
    assert_eq!(latex_render_mathml("\\sqrt[3]{x}", true), None);
    assert_eq!(latex_render_mathml("a % b", true), None);
    assert_eq!(latex_render_mathml("\\notacommand", true), None);
    assert_eq!(latex_render_mathml("\\", true), None);
    assert_eq!(latex_render_mathml("\\{", true), None);
    assert_eq!(latex_render_mathml("\\alpha1\\", true), None);
    assert_eq!(latex_render_mathml("\\def\\a{b}", true), None);
    assert_eq!(latex_render_mathml("\\char\"41", true), None);
}

#[test]
fn fractions_and_roots_need_their_group_right_behind() {
    assert!(renders_safely("\\frac{a}{b}"));
    assert!(renders_safely("\\sqrt{a}"));
    assert!(!renders_safely("\\sqrt[3]{a}"));
    assert!(renders_safely("{a} + \\frac{b}{c}"));
    assert!(renders_safely("x_\\frac{a}{b}"));
    assert!(!renders_safely("\\frac ab"));
    assert!(!renders_safely("\\frac {a}{b}"));
    assert!(!renders_safely("\\frac"));
    assert!(!renders_safely("\\frac[a]"));
    assert!(!renders_safely("\\sqrt x"));
    assert!(!renders_safely("\\frac{a}\\frac{b}{c}{d}"));
    assert!(!renders_safely("{a} \t\\frac{b}{c}"));
    assert!(!renders_safely("{a}\u{a0}\\frac{b}{c}"));
    assert!(!renders_safely("{a}é\\frac{b}{c}"));
    assert!(renders_safely("{a}e\\frac{b}{c}"));
    assert!(renders_safely("[3]\\sqrt{x}"));
    assert!(renders_safely("\\frac{a}\\alpha\\frac{b}{c}"));
}

#[test]
fn plain_formulas_are_admitted() {
    assert!(renders_safely(""));
    assert!(renders_safely("x^2 + (y_1 - 3.5)*z' = 0"));
    assert!(renders_safely("a $ # & ~ } {"));
    assert!(renders_safely("\\alpha"));
    assert!(renders_safely("\\alpha\\beta x"));
    assert!(renders_safely("\\lim_{n \\to \\infty} a_n"));
    assert!(!renders_safely("\\alphax"));
    assert!(renders_safely("\u{0}\u{7f}\u{80}"));
    assert!(renders_safely("π r² ≤ 2"));
    assert!(latex_render_mathml("π", true).unwrap().contains("π"));
}

#[test]
fn formula_renders_as_raw_markup() {
    let node = formula("a+b", true);
    let mut log = RenderLog::new();
    match &node.kind {
        NodeKind::Formula(value) => value.render(&node, &mut log),
        _ => unreachable!(),
    }
    assert_eq!(
        log.ops,
        vec![RenderOp::TextRaw { content: latex_render_mathml("a+b", true).unwrap() }]
    );
}

#[test]
fn missing_markup_renders_nothing() {
    let node = formula("\\color{#1é234}", true);
    let mut log = RenderLog::new();
    match &node.kind {
        NodeKind::Formula(value) => value.render(&node, &mut log),
        _ => unreachable!(),
    }
    assert_eq!(log.ops.len(), 0);
    LaTeXNode::render_markup(None, &mut log);
    assert_eq!(log.ops.len(), 0);
    LaTeXNode::render_markup(Some("<math></math>".to_string()), &mut log);
    assert_eq!(log.ops, vec![RenderOp::TextRaw { content: "<math></math>".to_string() }]);
}

#[test]
fn formula_is_found_at_a_byte_and_measured_in_bytes() {
    let src = "é$π€$z";
    assert_eq!(LaTeXScan::run_at_byte(src, 2, src.len()), Some((formula("π€", true), 7)));
    assert_eq!(&src[2..9], "$π€$");
    assert_eq!(LaTeXScan::run_at_byte(src, 1, src.len()), None);
    assert_eq!(LaTeXScan::run_at_byte(src, 2, 4), None);
    assert_eq!(LaTeXScan::run_at_byte(src, 2, 8), None);
    assert_eq!(LaTeXScan::run_at_byte(src, 2, 9), Some((formula("π€", true), 7)));
    assert_eq!(LaTeXScan::run_at_byte("$$x$$", 0, 5), Some((formula("x", false), 5)));
}
