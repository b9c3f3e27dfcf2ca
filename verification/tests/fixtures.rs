use md_extras::testing::{split_lines, Test};

#[test]
fn proper_parsing() {
    let tested = "...
# Lorem
ipsum
...
<h1>Lorem</h1>
<p>ipsum</p>";
    let test = Test::from(tested);
    let input = "# Lorem
ipsum\n"
        .to_string();
    let expect = "<h1>Lorem</h1>
<p>ipsum</p>\n"
        .to_string();
    let split = "...".to_string();
    assert_eq!((test.input, test.expected, test.split), (input, expect, split));
}

#[test]
fn lines_end_at_line_feeds() {
    assert_eq!(split_lines("a\nb\n\nc"), vec!["a", "b", "", "c"]);
    assert_eq!(split_lines("a\n"), vec!["a"]);
    assert_eq!(split_lines("\n"), vec![""]);
    assert_eq!(split_lines("\n\n"), vec!["", ""]);
    assert_eq!(split_lines("one"), vec!["one"]);
    assert_eq!(split_lines(""), Vec::<String>::new());
}

#[test]
fn lines_agree_with_the_standard_library() {
    for text in ["a\r\nb\rc\r\n", "\r\n", "\r", "a\r", "x\n\r\ny", "é\nü\r\n", "a\r\r\nb", "\n\r"] {
        let expected: Vec<String> = text.lines().map(|line| line.to_string()).collect();
        assert_eq!(split_lines(text), expected);
    }
}

#[test]
fn fixture_without_second_parting_line() {
    let test = Test::from("---\nonly\ninput");
    assert_eq!(test.split, "---");
    assert_eq!(test.input, "only\ninput\n");
    assert_eq!(test.expected, "");
}

#[test]
fn fixture_of_one_line() {
    let test = Test::from("...");
    assert_eq!(test, Test { input: String::new(), expected: String::new(), split: "...".to_string() });
}

#[test]
fn fixture_parts_at_the_first_parting_line_only() {
    let test = Test::from("==\r\na\r\n==\r\nb\r\n==\r\nc\r\n");
    assert_eq!(test.split, "==");
    assert_eq!(test.input, "a\n");
    assert_eq!(test.expected, "b\n==\nc\n");
}

#[test]
fn fixture_with_empty_document() {
    let test = Test::from("#\n#\n<p></p>\n");
    assert_eq!(test.input, "");
    assert_eq!(test.expected, "<p></p>\n");
}

#[test]
fn fixture_matches_exact_markup_only() {
    let test = Test::from("...\n# Lorem\n...\n<h1>Lorem</h1>");
    assert!(test.matches("<h1>Lorem</h1>\n"));
    assert!(!test.matches("<h1>Lorem</h1>"));
    assert!(!test.matches(""));
}
