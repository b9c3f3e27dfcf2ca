//! Fixtures for checking rendered output: a document and the markup that is
//! expected of it, read from one text.

use crate::text::{chars_of, push_char, str_eq, string_of};
use vstd::prelude::*;

verus! {

/// The line that stands in `text[start..end]`, where a line break stands at
/// `end`: a carriage return just before the break belongs to the break.
pub open spec fn line_between(text: Seq<char>, start: int, end: int) -> Seq<char> {
    if start < end && text[end - 1] == '\r' {
        text.subrange(start, end - 1)
    } else {
        text.subrange(start, end)
    }
}

/// The lines of `text` from `at` on, where the line that `at` stands in
/// began at `start`. Lines end at a line feed, with or without a carriage
/// return before it; the ending is not part of the line. What follows the
/// last ending is a line too, unless it is empty.
pub open spec fn lines_from(text: Seq<char>, start: int, at: int) -> Seq<Seq<char>>
    decreases text.len() - at,
{
    if at >= text.len() {
        if start < text.len() {
            seq![text.subrange(start, text.len() as int)]
        } else {
            Seq::empty()
        }
    } else if text[at] == '\n' {
        seq![line_between(text, start, at)] + lines_from(text, at + 1, at + 1)
    } else {
        lines_from(text, start, at + 1)
    }
}

/// The lines of `text`.
pub open spec fn lines_of(text: Seq<char>) -> Seq<Seq<char>> {
    lines_from(text, 0, 0)
}

/// The index of the first of `lines` that equals `line`, or the number of
/// lines where none does.
pub open spec fn first_equal(lines: Seq<Seq<char>>, line: Seq<char>) -> int
    decreases lines.len(),
{
    if lines.len() == 0 {
        0
    } else if lines[0] == line {
        0
    } else {
        1 + first_equal(lines.skip(1), line)
    }
}

/// The lines put together, each followed by a line feed.
pub open spec fn joined(lines: Seq<Seq<char>>) -> Seq<char>
    decreases lines.len(),
{
    if lines.len() == 0 {
        Seq::empty()
    } else {
        joined(lines.drop_last()) + lines.last() + seq!['\n']
    }
}

/// The plain values of a list of lines.
pub open spec fn lines_view(lines: Seq<String>) -> Seq<Seq<char>> {
    Seq::new(lines.len(), |i: int| lines[i]@)
}

/// Splits `text` into its lines.
pub fn split_lines(text: &str) -> (lines: Vec<String>)
    ensures
        lines_view(lines@) == lines_of(text@),
{
    let chars = chars_of(text);
    let n = chars.len();
    let mut lines: Vec<String> = Vec::new();
    let mut start: usize = 0;
    let mut at: usize = 0;
    assert(lines_view(lines@) =~= Seq::empty());
    while at < n
        invariant
            start <= at <= n,
            n == chars.len(),
            chars@ == text@,
            lines_view(lines@) + lines_from(text@, start as int, at as int) == lines_of(text@),
        decreases n - at,
    {
        let ghost had = lines_view(lines@);
        if chars[at] == '\n' {
            let end = if start < at && chars[at - 1] == '\r' {
                at - 1
            } else {
                at
            };
            let line = string_of(&chars, start, end);
            lines.push(line);
            proof {
                let this = line_between(text@, start as int, at as int);
                assert(lines_view(lines@) =~= had + seq![this]);
                assert((had + seq![this]) + lines_from(text@, at + 1, at + 1) =~= had + (seq![this]
                    + lines_from(text@, at + 1, at + 1)));
            }
            start = at + 1;
        }
        at += 1;
    }
    if start < n {
        let ghost had = lines_view(lines@);
        let line = string_of(&chars, start, n);
        lines.push(line);
        assert(lines_view(lines@) =~= had + seq![text@.subrange(start as int, n as int)]);
    } else {
        assert(lines_view(lines@) + Seq::<Seq<char>>::empty() =~= lines_view(lines@));
    }
    lines
}

/// A document, the markup expected of it, and the line that parts the two.
#[derive(Debug, PartialEq, Eq)]
pub struct Test {
    pub input: String,
    pub expected: String,
    pub split: String,
}

/// The document of a fixture: the lines between the first line, which is
/// the parting line, and the next line equal to it.
pub open spec fn fixture_input(lines: Seq<Seq<char>>) -> Seq<char> {
    let body = lines.skip(1);
    joined(body.take(first_equal(body, lines[0])))
}

/// The expected markup of a fixture: the lines after the second parting
/// line, and nothing where there is none.
pub open spec fn fixture_expected(lines: Seq<Seq<char>>) -> Seq<char> {
    let body = lines.skip(1);
    let cut = first_equal(body, lines[0]);
    if cut < body.len() {
        joined(body.skip(cut + 1))
    } else {
        Seq::empty()
    }
}

impl Test {
    /// Reads a fixture. The first line of `predone` is the parting line; the
    /// lines up to the next parting line are the document, and the lines
    /// after that are the expected markup. Every line of either ends with a
    /// line feed.
    pub fn from(predone: &str) -> (test: Test)
        requires
            predone@.len() > 0,
        ensures
            test.split@ == lines_of(predone@)[0],
            test.input@ == fixture_input(lines_of(predone@)),
            test.expected@ == fixture_expected(lines_of(predone@)),
    {
        let lines = split_lines(predone);
        proof {
            lemma_lines_exist(predone@);
        }
        let ghost all = lines_of(predone@);
        let ghost body = all.skip(1);
        let n = lines.len();
        let mut input = String::new();
        let mut expect = String::new();
        let mut i: usize = 1;
        proof {
            assert(body.skip(0) =~= body);
        }
        while i < n && !str_eq(lines[i].as_str(), lines[0].as_str())
            invariant
                1 <= i <= n,
                n == lines.len(),
                n == all.len(),
                all == lines_view(lines@),
                body == all.skip(1),
                i - 1 + first_equal(body.skip(i - 1), all[0]) == first_equal(body, all[0]),
                input@ == joined(body.take(i - 1)),
            decreases n - i,
        {
            proof {
                assert(body.skip(i - 1).skip(1) =~= body.skip(i as int));
                assert(body.take(i as int).drop_last() =~= body.take(i - 1));
            }
            input.append(lines[i].as_str());
            push_char(&mut input, '\n');
            i += 1;
        }
        let ghost cut = i - 1;
        if i < n {
            i += 1;
            let first = i;
            while i < n
                invariant
                    first <= i <= n,
                    first == cut + 2,
                    0 <= cut,
                    n == lines.len(),
                    n == all.len(),
                    all == lines_view(lines@),
                    body == all.skip(1),
                    expect@ == joined(body.skip(cut + 1).take(i - first)),
                decreases n - i,
            {
                proof {
                    let rest = body.skip(cut + 1);
                    assert(rest.take(i - first + 1).drop_last() =~= rest.take(i - first));
                }
                expect.append(lines[i].as_str());
                push_char(&mut expect, '\n');
                i += 1;
            }
            proof {
                let rest = body.skip(cut + 1);
                assert(rest.take(n - first) =~= rest);
            }
        }
        Test { input, expected: expect, split: lines[0].clone() }
    }

    /// Whether `actual` is the expected markup.
    pub fn matches(&self, actual: &str) -> (same: bool)
        ensures
            same == (actual@ == self.expected@),
    {
        str_eq(actual, self.expected.as_str())
    }
}

/// A text that is not empty has a first line.
pub proof fn lemma_lines_exist(text: Seq<char>)
    requires
        text.len() > 0,
    ensures
        lines_of(text).len() > 0,
{
    lemma_lines_from_exist(text, 0, 0);
}

proof fn lemma_lines_from_exist(text: Seq<char>, start: int, at: int)
    requires
        0 <= start <= at <= text.len(),
        start < text.len(),
    ensures
        lines_from(text, start, at).len() > 0,
    decreases text.len() - at,
{
    if at < text.len() && text[at] != '\n' {
        lemma_lines_from_exist(text, start, at + 1);
    }
}

} // verus!
