use md_extras::text::{
    byte_length, char_index_at, char_width, chars_of, followed_by, push_decimal, sluggify,
    string_of, to_decimal,
};

#[test]
fn slug_drops_punctuation_and_lowercases() {
    assert_eq!(sluggify("Hello, World!"), "hello-world");
}

#[test]
fn slug_turns_every_space_into_a_hyphen() {
    assert_eq!(sluggify("  a  b "), "--a--b-");
}

#[test]
fn slug_keeps_digits_and_drops_hyphens() {
    assert_eq!(sluggify("Step 2: re-run"), "step-2-rerun");
}

#[test]
fn slug_keeps_letters_of_other_scripts() {
    assert_eq!(sluggify("Ünïcode Straße №5"), "ünïcode-straße-5");
}

#[test]
fn slug_of_nothing_is_empty() {
    assert_eq!(sluggify(""), "");
    assert_eq!(sluggify("?!"), "");
}

#[test]
fn equal_titles_have_equal_slugs() {
    let first = String::from("See? Another heading");
    let second = format!("{} {}", "See?", "Another heading");
    assert_eq!(first, second);
    assert_eq!(sluggify(&first), sluggify(&second));
    assert_eq!(sluggify(&first), "see-another-heading");
}

#[test]
fn decimal_of_small_and_large_numbers() {
    assert_eq!(to_decimal(0), "0");
    assert_eq!(to_decimal(7), "7");
    assert_eq!(to_decimal(10), "10");
    assert_eq!(to_decimal(1234567890), "1234567890");
    assert_eq!(to_decimal(usize::MAX), format!("{}", usize::MAX));
}

#[test]
fn decimal_is_appended() {
    let mut text = String::from("fnr-foo-");
    push_decimal(&mut text, 42);
    assert_eq!(text, "fnr-foo-42");
}

#[test]
fn characters_and_back() {
    let chars = chars_of("a[é]");
    assert_eq!(chars, vec!['a', '[', 'é', ']']);
    assert_eq!(string_of(&chars, 1, 3), "[é");
    assert_eq!(string_of(&chars, 2, 2), "");
    assert_eq!(string_of(&chars, 0, 4), "a[é]");
}

#[test]
fn second_text_follows_first() {
    assert_eq!(followed_by("#", "slug"), "#slug");
    assert_eq!(followed_by("", ""), "");
}

#[test]
fn characters_take_one_to_four_bytes() {
    for c in ['a', '\u{7f}', '\u{80}', 'é', '\u{7ff}', '\u{800}', '€', '\u{ffff}', '\u{10000}', '😀'] {
        assert_eq!(char_width(c), c.len_utf8());
    }
}

#[test]
fn byte_offsets_are_turned_into_character_indices() {
    let text = "aé€😀z";
    let chars = chars_of(text);
    assert_eq!(char_index_at(&chars, 0), Some(0));
    assert_eq!(char_index_at(&chars, 1), Some(1));
    assert_eq!(char_index_at(&chars, 2), None);
    assert_eq!(char_index_at(&chars, 3), Some(2));
    assert_eq!(char_index_at(&chars, 5), None);
    assert_eq!(char_index_at(&chars, 6), Some(3));
    assert_eq!(char_index_at(&chars, 10), Some(4));
    assert_eq!(char_index_at(&chars, text.len()), Some(5));
    assert_eq!(char_index_at(&chars, text.len() + 1), None);
    assert_eq!(char_index_at(&chars, usize::MAX), None);
    assert_eq!(char_index_at(&Vec::new(), 0), Some(0));
    assert_eq!(char_index_at(&Vec::new(), 1), None);
}

#[test]
fn characters_are_measured_in_bytes() {
    let text = "aé€😀z";
    let chars = chars_of(text);
    assert_eq!(byte_length(&chars, 0, 5), Some(text.len()));
    assert_eq!(byte_length(&chars, 1, 3), Some(5));
    assert_eq!(byte_length(&chars, 3, 4), Some(4));
    assert_eq!(byte_length(&chars, 2, 2), Some(0));
}
