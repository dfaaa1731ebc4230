use puremark::classify::{
    blockquote_text, is_blockquote, is_list_item, is_ordered_list_item, list_item_text,
    ordered_item_text, parse_heading,
};
use puremark::markdown::{parse_blockquote, parse_list, parse_ordered_list};
use puremark::text::{split_lines, trimmed};

fn chars(s: &str) -> Vec<char> {
    s.chars().collect()
}

#[test]
fn heading_level_and_text() {
    assert_eq!(parse_heading(&chars("## Hi there")), Some((2, chars("Hi there"))));
    assert_eq!(parse_heading(&chars("####### x")), None);
    assert_eq!(parse_heading(&chars("#x")), None);
    assert_eq!(parse_heading(&chars("#")), None);
}

#[test]
fn line_predicates() {
    assert!(is_blockquote(&chars("  >x")));
    assert!(!is_blockquote(&chars("x>")));
    assert!(is_list_item(&chars(" * a")));
    assert!(!is_list_item(&chars("-a")));
    assert!(is_ordered_list_item(&chars("23. x")));
    assert!(!is_ordered_list_item(&chars("2a. x")));
    assert!(!is_ordered_list_item(&chars(". x")));
}

#[test]
fn line_texts() {
    assert_eq!(blockquote_text(&chars(" >> a b ")), chars("a b "));
    assert_eq!(list_item_text(&chars("-   a  ")), chars("a"));
    assert_eq!(ordered_item_text(&chars("10.  ten. x ")), chars("ten. x"));
}

#[test]
fn lines_and_trim() {
    assert_eq!(
        split_lines(&chars("a\r\nb\n\nc\r")),
        vec![chars("a"), chars("b"), chars(""), chars("c\r")]
    );
    assert_eq!(split_lines(&chars("x\n")), vec![chars("x")]);
    assert_eq!(trimmed(&chars("\t a b \n")), chars("a b"));
}

#[test]
fn run_parsers_stop_at_first_other_line() {
    let lines = split_lines(&chars(
        "> q\n> r\n\n# F\n- Apple\n- Banana\n\n1. Wake up\n2. Eat\n\nEnd",
    ));
    let (quote, next) = parse_blockquote(&trimmed(&lines[0]), &lines, 0);
    assert_eq!(quote, chars("<blockquote>\nq\nr</blockquote>"));
    assert_eq!(next, 2);
    let (list, next) = parse_list(&trimmed(&lines[4]), &lines, 4);
    assert_eq!(list, chars("<ul>\n<li>Apple</li>\n<li>Banana</li>\n</ul>"));
    assert_eq!(next, 6);
    let (ordered, next) = parse_ordered_list(&trimmed(&lines[7]), &lines, 7);
    assert_eq!(ordered, chars("<ol>\n<li>Wake up</li>\n<li>Eat</li>\n</ol>"));
    assert_eq!(next, 9);
}
