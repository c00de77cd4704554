use grep_function::render::{push_decimal, render_match};
use grep_function::report::{closing_notice, file_not_found_notice, header_from_shown, header_lines, report};
use grep_function::scan::{scan_lines, Config, ScanState, Step};
use grep_function::text::{chars_of, contains_folded, fold_char, line_matches};

fn config(pattern: &str, show: bool, insensitive: bool, max: i32) -> Config {
    Config {
        file_path: String::from("notes.txt"),
        pattern: String::from(pattern),
        show_line_number: show,
        case_insensitive: insensitive,
        max_matches: max,
    }
}

fn lines_of(texts: &[&str]) -> Vec<Option<String>> {
    texts.iter().map(|t| Some(String::from(*t))).collect()
}

fn header() -> Vec<String> {
    vec![String::from("pattern searched:\"an\""), String::from("file path:\"notes.txt\"")]
}

#[test]
fn example_banana() {
    let cfg = config("an", false, false, 0);
    let lines = lines_of(&["apple", "Banana", "grape"]);
    let out = scan_lines(&cfg, &lines);
    assert_eq!(out.emitted, vec![String::from("Banana")]);
    assert!(out.found);
    assert_eq!(out.lines_read, 3);
    let mut expected = header();
    expected.push(String::from("Banana"));
    assert_eq!(report(&cfg, &Some(lines)), expected);
}

#[test]
fn no_match_prints_header_and_not_found() {
    let cfg = config("an", false, false, 0);
    let lines = lines_of(&["apple", "grape", "AN"]);
    let out = scan_lines(&cfg, &lines);
    assert!(out.emitted.is_empty());
    assert!(!out.found);
    let mut expected = header();
    expected.push(String::from("Not found."));
    assert_eq!(report(&cfg, &Some(lines)), expected);
}

#[test]
fn no_lines_at_all() {
    let cfg = config("an", true, false, 0);
    let lines: Vec<Option<String>> = Vec::new();
    let out = scan_lines(&cfg, &lines);
    assert!(!out.found);
    assert_eq!(out.lines_read, 0);
    let mut expected = header();
    expected.push(String::from("Not found."));
    assert_eq!(report(&cfg, &Some(lines)), expected);
}

#[test]
fn match_means_no_not_found_notice() {
    let cfg = config("an", false, false, 0);
    let lines = lines_of(&["Not found.", "banana"]);
    let r = report(&cfg, &Some(lines));
    assert_eq!(r.len(), 3);
    assert_eq!(r[2], "banana");
}

#[test]
fn line_numbers_count_all_lines() {
    let cfg = config("foo", true, false, 0);
    let lines = lines_of(&["x", "foo", "y", "a foo b"]);
    let out = scan_lines(&cfg, &lines);
    assert_eq!(out.emitted, vec![String::from("2:foo"), String::from("4:a foo b")]);
}

#[test]
fn undecodable_lines_count_but_never_match() {
    let cfg = config("foo", true, false, 0);
    let lines = vec![None, Some(String::from("foo")), None, Some(String::from("foo!"))];
    let out = scan_lines(&cfg, &lines);
    assert_eq!(out.emitted, vec![String::from("2:foo"), String::from("4:foo!")]);
    assert_eq!(out.lines_read, 4);
}

#[test]
fn case_insensitive_example() {
    assert!(line_matches("this has foo in it", "Foo", true));
    assert!(!line_matches("this has foo in it", "Foo", false));
    assert!(line_matches("THIS HAS FOO", "foo", true));
    let cfg = config("Foo", false, true, 0);
    let out = scan_lines(&cfg, &lines_of(&["this has foo in it", "bar"]));
    assert_eq!(out.emitted, vec![String::from("this has foo in it")]);
    assert!(out.found);
}

#[test]
fn case_insensitive_only_ascii() {
    assert!(!line_matches("\u{c9}t\u{c9}", "\u{e9}", true));
    assert!(line_matches("[A]", "[a]", true));
    assert!(!line_matches("@", "`", true));
}

#[test]
fn limit_two_of_five() {
    let cfg = config("m", true, false, 2);
    let lines = lines_of(&["m1", "x", "m2", "m3", "y", "m4", "m5"]);
    let out = scan_lines(&cfg, &lines);
    assert_eq!(out.emitted, vec![String::from("1:m1"), String::from("3:m2")]);
    assert!(out.found);
    assert_eq!(out.lines_read, 4);
}

#[test]
fn limit_above_matches_emits_all() {
    let cfg = config("m", false, false, 9);
    let lines = lines_of(&["m1", "x", "m2"]);
    let out = scan_lines(&cfg, &lines);
    assert_eq!(out.emitted, vec![String::from("m1"), String::from("m2")]);
    assert_eq!(out.lines_read, 3);
}

#[test]
fn negative_limit_emits_nothing() {
    let cfg = config("an", false, false, -1);
    let lines = lines_of(&["x", "banana", "an"]);
    let out = scan_lines(&cfg, &lines);
    assert!(out.emitted.is_empty());
    assert!(out.found);
    assert_eq!(out.lines_read, 2);
    assert_eq!(report(&cfg, &Some(lines)), header());
}

#[test]
fn missing_file_output() {
    let cfg = config("an", false, false, 0);
    let mut expected = header();
    expected.push(String::from("File not found."));
    expected.push(String::from("Not found."));
    assert_eq!(report(&cfg, &None), expected);
}

#[test]
fn empty_pattern_matches_every_line() {
    let cfg = config("", true, false, 0);
    let out = scan_lines(&cfg, &lines_of(&["", "a"]));
    assert_eq!(out.emitted, vec![String::from("1:"), String::from("2:a")]);
}

#[test]
fn header_quotes_and_escapes() {
    let mut cfg = config("a\"b", false, false, 0);
    cfg.file_path = String::from("dir/f.txt");
    assert_eq!(
        header_lines(&cfg),
        vec![String::from("pattern searched:\"a\\\"b\""), String::from("file path:\"dir/f.txt\"")]
    );
    assert_eq!(
        header_from_shown("P", "F"),
        vec![String::from("pattern searched:P"), String::from("file path:F")]
    );
}

#[test]
fn notices() {
    assert_eq!(file_not_found_notice(), "File not found.");
    assert_eq!(closing_notice(false), Some(String::from("Not found.")));
    assert_eq!(closing_notice(true), None);
}

#[test]
fn step_by_step() {
    let cfg = config("ab", true, false, 1);
    let mut st = ScanState::new();
    assert!(matches!(st.step(&cfg, Some("xx")), Step::Skip));
    assert!(matches!(st.step(&cfg, None), Step::Skip));
    match st.step(&cfg, Some("cab")) {
        Step::Emit(t) => assert_eq!(t, "3:cab"),
        _ => panic!("expected an emitted line"),
    }
    assert!(matches!(st.step(&cfg, Some("ab")), Step::Halt));
    assert_eq!(st.line_number, 4);
    assert_eq!(st.matches_emitted, 1);
    assert!(st.found);
}

#[test]
fn decimal_rendering() {
    let mut s = String::from("n=");
    push_decimal(&mut s, 0);
    assert_eq!(s, "n=0");
    let mut t = String::new();
    push_decimal(&mut t, 1234567890);
    assert_eq!(t, "1234567890");
    assert_eq!(render_match(true, 10, "ten"), "10:ten");
    assert_eq!(render_match(false, 10, "ten"), "ten");
    let mut u = String::new();
    push_decimal(&mut u, u64::MAX);
    assert_eq!(u, "18446744073709551615");
}

#[test]
fn character_helpers() {
    assert_eq!(chars_of("h\u{e9}!"), vec!['h', '\u{e9}', '!']);
    assert_eq!(fold_char('Q', true), 'q');
    assert_eq!(fold_char('Q', false), 'Q');
    assert_eq!(fold_char('\u{c9}', true), '\u{c9}');
    let hay = vec!['a', 'B', 'c'];
    assert!(contains_folded(&hay, &vec!['b', 'C'], true));
    assert!(!contains_folded(&hay, &vec!['b', 'C'], false));
    assert!(contains_folded(&hay, &vec![], false));
    assert!(!contains_folded(&hay, &vec!['a', 'B', 'c', 'd'], false));
}
