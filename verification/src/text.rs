//! Character-level helpers shared by the passes: slugs, decimal numerals and
//! a few string primitives.

use vstd::prelude::*;
use vstd::seq_lib::*;

verus! {

/// What `char::is_alphanumeric` of the standard library answers for `c`
/// (the Unicode properties Alphabetic and Numeric).
pub uninterp spec fn char_is_alphanumeric(c: char) -> bool;

/// What `str::to_lowercase` of the standard library returns for the text `s`.
pub uninterp spec fn lowercase_of(s: Seq<char>) -> Seq<char>;

/// Calls `char::is_alphanumeric`; the answer is a function of the character alone.
#[verifier::external_body]
pub(crate) fn is_alphanumeric(c: char) -> (r: bool)
    ensures
        r == char_is_alphanumeric(c),
{
    c.is_alphanumeric()
}

/// Calls `str::to_lowercase`; the result is a function of the text alone.
#[verifier::external_body]
pub(crate) fn to_lowercase(s: &str) -> (r: String)
    ensures
        r@ == lowercase_of(s@),
{
    s.to_lowercase()
}

/// Calls `String::push`, which appends one character at the end.
#[verifier::external_body]
pub(crate) fn push_char(s: &mut String, c: char)
    ensures
        final(s)@ == old(s)@.push(c),
{
    s.push(c)
}

/// Calls `==` on two string slices, which holds exactly when they hold the
/// same characters in the same order.
#[verifier::external_body]
pub(crate) fn str_eq(a: &str, b: &str) -> (r: bool)
    ensures
        r == (a@ == b@),
{
    a == b
}

/// The characters of `s`, in order.
pub fn chars_of(s: &str) -> (v: Vec<char>)
    ensures
        v@ == s@,
{
    let mut v: Vec<char> = Vec::new();
    for c in it: s.chars()
        invariant
            it.seq() == s@,
            v@ == it.seq().take(it.index()),
    {
        v.push(c);
    }
    v
}

/// The text made of `chars[from..to]`.
pub fn string_of(chars: &Vec<char>, from: usize, to: usize) -> (s: String)
    requires
        from <= to <= chars.len(),
    ensures
        s@ == chars@.subrange(from as int, to as int),
{
    let mut s = String::new();
    let mut i: usize = from;
    while i < to
        invariant
            from <= i <= to <= chars.len(),
            s@ == chars@.subrange(from as int, i as int),
        decreases to - i,
    {
        push_char(&mut s, chars[i]);
        i += 1;
    }
    s
}

/// A character a slug keeps: alphanumeric, or a space (which becomes a hyphen).
pub open spec fn slug_keeps(c: char) -> bool {
    char_is_alphanumeric(c) || c == ' '
}

/// A space becomes a hyphen; every other character stays.
pub open spec fn hyphenate(c: char) -> char {
    if c == ' ' {
        '-'
    } else {
        c
    }
}

/// The slug before lowercasing: the kept characters of `name`, spaces as hyphens.
pub open spec fn slug_stem(name: Seq<char>) -> Seq<char> {
    name.filter(|c: char| slug_keeps(c)).map_values(|c: char| hyphenate(c))
}

/// The slug of a title: every character that is neither alphanumeric nor a
/// space is dropped, spaces become hyphens, and the result is lowercased.
pub open spec fn slug_of(name: Seq<char>) -> Seq<char> {
    lowercase_of(slug_stem(name))
}

/// Derives the URL-safe identifier of `name`.
pub fn sluggify(name: &str) -> (slug: String)
    ensures
        slug@ == slug_of(name@),
{
    let mut stem = String::new();
    for c in it: name.chars()
        invariant
            it.seq() == name@,
            stem@ == slug_stem(name@.take(it.index())),
    {
        proof {
            let seen = name@.take(it.index());
            assert(name@.take(it.index() + 1) == seen.push(c));
            Seq::lemma_filter_push(seen, c, |c: char| slug_keeps(c));
        }
        if c == ' ' {
            push_char(&mut stem, '-');
        } else if is_alphanumeric(c) {
            push_char(&mut stem, c);
        }
    }
    proof {
        assert(name@.take(name@.len() as int) == name@);
    }
    to_lowercase(stem.as_str())
}

/// Two equal titles have equal slugs: the slug depends on the title's text alone.
pub proof fn lemma_slug_depends_on_title_only(a: Seq<char>, b: Seq<char>)
    requires
        a == b,
    ensures
        slug_of(a) == slug_of(b),
{
}

/// The decimal digit for `d`, where `d` is below ten.
pub open spec fn digit(d: nat) -> char {
    if d == 0 {
        '0'
    } else if d == 1 {
        '1'
    } else if d == 2 {
        '2'
    } else if d == 3 {
        '3'
    } else if d == 4 {
        '4'
    } else if d == 5 {
        '5'
    } else if d == 6 {
        '6'
    } else if d == 7 {
        '7'
    } else if d == 8 {
        '8'
    } else {
        '9'
    }
}

/// The decimal numeral of `n`, without leading zeros.
pub open spec fn decimal(n: nat) -> Seq<char>
    decreases n,
{
    if n < 10 {
        seq![digit(n)]
    } else {
        decimal(n / 10).push(digit(n % 10))
    }
}

fn digit_of(d: usize) -> (c: char)
    requires
        d < 10,
    ensures
        c == digit(d as nat),
{
    if d == 0 {
        '0'
    } else if d == 1 {
        '1'
    } else if d == 2 {
        '2'
    } else if d == 3 {
        '3'
    } else if d == 4 {
        '4'
    } else if d == 5 {
        '5'
    } else if d == 6 {
        '6'
    } else if d == 7 {
        '7'
    } else if d == 8 {
        '8'
    } else {
        '9'
    }
}

/// Appends the decimal numeral of `n` to `out`.
pub fn push_decimal(out: &mut String, n: usize)
    ensures
        final(out)@ == old(out)@ + decimal(n as nat),
    decreases n,
{
    if n >= 10 {
        push_decimal(out, n / 10);
    }
    push_char(out, digit_of(n % 10));
}

/// The decimal numeral of `n`.
pub fn to_decimal(n: usize) -> (s: String)
    ensures
        s@ == decimal(n as nat),
{
    let mut s = String::new();
    push_decimal(&mut s, n);
    s
}

/// `a` followed by `b`.
pub fn followed_by(a: &str, b: &str) -> (s: String)
    ensures
        s@ == a@ + b@,
{
    let mut s = String::from_str(a);
    s.append(b);
    s
}

/// The number of bytes that a character takes in UTF-8.
pub open spec fn utf8_len(c: char) -> nat {
    if (c as u32) < 0x80 {
        1
    } else if (c as u32) < 0x800 {
        2
    } else if (c as u32) < 0x10000 {
        3
    } else {
        4
    }
}

/// The number of bytes that a text takes in UTF-8.
pub open spec fn byte_count(text: Seq<char>) -> nat
    decreases text.len(),
{
    if text.len() == 0 {
        0
    } else {
        byte_count(text.drop_last()) + utf8_len(text.last())
    }
}

/// The index of the character that starts at byte `bytes` of `text`, looked
/// for from index `from` on; the length of the text for the byte just after
/// its end. There is none where that byte lies within a character or beyond
/// the end.
pub open spec fn char_index_from(text: Seq<char>, from: int, bytes: int) -> Option<int>
    decreases text.len() - from,
{
    if from < 0 || from > text.len() || byte_count(text.take(from)) > bytes {
        None
    } else if byte_count(text.take(from)) == bytes {
        Some(from)
    } else if from == text.len() {
        None
    } else {
        char_index_from(text, from + 1, bytes)
    }
}

/// The index of the character that starts at byte `bytes` of `text`.
pub open spec fn char_index(text: Seq<char>, bytes: int) -> Option<int> {
    char_index_from(text, 0, bytes)
}

/// The number of bytes that `c` takes in UTF-8.
pub fn char_width(c: char) -> (width: usize)
    ensures
        width == utf8_len(c),
{
    let code = c as u32;
    if code < 0x80 {
        1
    } else if code < 0x800 {
        2
    } else if code < 0x10000 {
        3
    } else {
        4
    }
}

/// The index of the character that starts at byte `bytes` of `chars`.
pub fn char_index_at(chars: &Vec<char>, bytes: usize) -> (index: Option<usize>)
    ensures
        match char_index(chars@, bytes as int) {
            Some(i) => index == Some(i as usize) && 0 <= i <= chars.len(),
            None => index is None,
        },
{
    let mut i: usize = 0;
    let mut seen: usize = 0;
    assert(chars@.take(0) =~= Seq::<char>::empty());
    while seen < bytes
        invariant
            i <= chars.len(),
            seen <= bytes,
            seen == byte_count(chars@.take(i as int)),
            char_index(chars@, bytes as int) == char_index_from(chars@, i as int, bytes as int),
        decreases chars.len() - i,
    {
        if i == chars.len() {
            return None;
        }
        let width = char_width(chars[i]);
        proof {
            assert(chars@.take(i as int + 1).drop_last() =~= chars@.take(i as int));
        }
        if width > bytes - seen {
            assert(char_index_from(chars@, i as int + 1, bytes as int) is None);
            return None;
        }
        seen += width;
        i += 1;
    }
    Some(i)
}

/// The number of bytes that `chars[from..to]` take in UTF-8, where it can
/// be held.
pub fn byte_length(chars: &Vec<char>, from: usize, to: usize) -> (bytes: Option<usize>)
    requires
        from <= to <= chars.len(),
    ensures
        match bytes {
            Some(n) => n == byte_count(chars@.subrange(from as int, to as int)),
            None => byte_count(chars@.subrange(from as int, to as int)) > usize::MAX,
        },
{
    let mut i: usize = from;
    let mut sum: usize = 0;
    assert(chars@.subrange(from as int, from as int) =~= Seq::<char>::empty());
    while i < to
        invariant
            from <= i <= to <= chars.len(),
            sum == byte_count(chars@.subrange(from as int, i as int)),
        decreases to - i,
    {
        let width = char_width(chars[i]);
        proof {
            assert(chars@.subrange(from as int, i as int + 1).drop_last() =~= chars@.subrange(
                from as int,
                i as int,
            ));
            lemma_byte_count_grows(chars@.subrange(from as int, to as int), i + 1 - from);
            assert(chars@.subrange(from as int, to as int).take(i + 1 - from) =~= chars@.subrange(
                from as int,
                i as int + 1,
            ));
        }
        if width > usize::MAX - sum {
            return None;
        }
        sum += width;
        i += 1;
    }
    Some(sum)
}

/// The first characters of a text take no more bytes than the whole text.
pub proof fn lemma_byte_count_grows(text: Seq<char>, n: int)
    requires
        0 <= n <= text.len(),
    ensures
        byte_count(text.take(n)) <= byte_count(text),
    decreases text.len(),
{
    if n == text.len() {
        assert(text.take(n) =~= text);
    } else {
        lemma_byte_count_grows(text.drop_last(), n);
        assert(text.drop_last().take(n) =~= text.take(n));
    }
}

} // verus!
