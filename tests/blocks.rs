use puremark::parse_markdown;

#[test]
fn same_input_gives_same_output() {
    let input = "# T\n> q\n- a\n1. b\npara";
    assert_eq!(parse_markdown(input), parse_markdown(input));
}

#[test]
fn blank_lines_give_nothing() {
    assert_eq!(parse_markdown("   \n\t\n\n"), "");
}

#[test]
fn blank_line_closes_blockquote() {
    assert_eq!(
        parse_markdown("> a\n\n> b"),
        "<blockquote>\na</blockquote>\n<blockquote>\nb</blockquote>"
    );
}

#[test]
fn blank_line_closes_list() {
    assert_eq!(
        parse_markdown("- a\n   \n- b"),
        "<ul>\n<li>a</li>\n</ul>\n<ul>\n<li>b</li>\n</ul>"
    );
}

#[test]
fn seven_hashes_is_a_paragraph() {
    assert_eq!(
        parse_markdown("####### Not a heading"),
        "<p>####### Not a heading</p>"
    );
}

#[test]
fn hashes_without_space_is_a_paragraph() {
    assert_eq!(parse_markdown("###NoSpace"), "<p>###NoSpace</p>");
}

#[test]
fn multi_line_blockquote() {
    assert_eq!(
        parse_markdown("> line one\n> line two"),
        "<blockquote>\nline one\nline two</blockquote>"
    );
}

#[test]
fn single_run_unordered_list() {
    assert_eq!(
        parse_markdown("- a\n- b\n- c"),
        "<ul>\n<li>a</li>\n<li>b</li>\n<li>c</li>\n</ul>"
    );
}

#[test]
fn ordered_item_splits_at_first_separator() {
    assert_eq!(
        parse_markdown("1. eat. sleep"),
        "<ol>\n<li>eat. sleep</li>\n</ol>"
    );
}

#[test]
fn heading_blank_paragraph() {
    assert_eq!(
        parse_markdown("# Title\n\nBody"),
        "<h1>Title</h1>\n<p>Body</p>"
    );
}

#[test]
fn empty_input() {
    assert_eq!(parse_markdown(""), "");
}

#[test]
fn every_heading_level() {
    assert_eq!(parse_markdown("# a"), "<h1>a</h1>");
    assert_eq!(parse_markdown("## b"), "<h2>b</h2>");
    assert_eq!(parse_markdown("### c"), "<h3>c</h3>");
    assert_eq!(parse_markdown("#### d"), "<h4>d</h4>");
    assert_eq!(parse_markdown("##### e"), "<h5>e</h5>");
    assert_eq!(parse_markdown("###### f"), "<h6>f</h6>");
}

#[test]
fn heading_content_is_trimmed() {
    assert_eq!(parse_markdown("   #   spaced   "), "<h1>spaced</h1>");
}

#[test]
fn paragraph_is_trimmed() {
    assert_eq!(parse_markdown("\u{3000} hello \u{A0}"), "<p>hello</p>");
}

#[test]
fn no_html_escaping() {
    assert_eq!(parse_markdown("a < b & c"), "<p>a < b & c</p>");
}

#[test]
fn blockquote_strips_every_marker() {
    assert_eq!(parse_markdown(">>> deep"), "<blockquote>\ndeep</blockquote>");
}

#[test]
fn blockquote_continuation_keeps_trailing_space() {
    assert_eq!(
        parse_markdown("> a  \n  > b  "),
        "<blockquote>\na\nb  </blockquote>"
    );
}

#[test]
fn empty_blockquote_line() {
    assert_eq!(
        parse_markdown("> a\n>\n> b"),
        "<blockquote>\na\n\nb</blockquote>"
    );
}

#[test]
fn list_markers_mix_in_one_list() {
    assert_eq!(
        parse_markdown("- a\n* b\n+ c"),
        "<ul>\n<li>a</li>\n<li>b</li>\n<li>c</li>\n</ul>"
    );
}

#[test]
fn lone_dash_is_a_paragraph() {
    assert_eq!(parse_markdown("- "), "<p>-</p>");
}

#[test]
fn lone_dash_ends_a_list() {
    assert_eq!(
        parse_markdown("- a\n- \nx"),
        "<ul>\n<li>a</li>\n</ul>\n<p>-</p>\n<p>x</p>"
    );
}

#[test]
fn lone_number_ends_an_ordered_list() {
    assert_eq!(
        parse_markdown("1. a\n2. \nx"),
        "<ol>\n<li>a</li>\n</ol>\n<p>2.</p>\n<p>x</p>"
    );
}

#[test]
fn blank_line_then_run_of_same_kind() {
    assert_eq!(
        parse_markdown("1. a\n\n2. b"),
        "<ol>\n<li>a</li>\n</ol>\n<ol>\n<li>b</li>\n</ol>"
    );
}

#[test]
fn list_then_ordered_list() {
    assert_eq!(
        parse_markdown("- a\n1. b\n22. c"),
        "<ul>\n<li>a</li>\n</ul>\n<ol>\n<li>b</li>\n<li>c</li>\n</ol>"
    );
}

#[test]
fn list_then_paragraph() {
    assert_eq!(
        parse_markdown("- a\ntext"),
        "<ul>\n<li>a</li>\n</ul>\n<p>text</p>"
    );
}

#[test]
fn ordered_marker_needs_a_digit() {
    assert_eq!(parse_markdown(". x"), "<p>. x</p>");
}

#[test]
fn ordered_marker_needs_a_space() {
    assert_eq!(parse_markdown("1.x"), "<p>1.x</p>");
}

#[test]
fn heading_ends_a_run_of_nothing() {
    assert_eq!(
        parse_markdown("> q\n# h"),
        "<blockquote>\nq</blockquote>\n<h1>h</h1>"
    );
}

#[test]
fn crlf_line_endings() {
    assert_eq!(
        parse_markdown("# A\r\n- b\r\n- c\r\n"),
        "<h1>A</h1>\n<ul>\n<li>b</li>\n<li>c</li>\n</ul>"
    );
}

#[test]
fn sample_document() {
    let input = "\
# Heading

> This is a quote.
> It has multiple lines.
>
> Another line.

# Fruits

- Apple
- Banana
- Orange

# Steps

1. Wake up
2. Brush teeth
3. Eat breakfast

Normal paragraph here.";
    let expected = "<h1>Heading</h1>\n<blockquote>\nThis is a quote.\nIt has multiple lines.\n\nAnother line.</blockquote>\n<h1>Fruits</h1>\n<ul>\n<li>Apple</li>\n<li>Banana</li>\n<li>Orange</li>\n</ul>\n<h1>Steps</h1>\n<ol>\n<li>Wake up</li>\n<li>Brush teeth</li>\n<li>Eat breakfast</li>\n</ol>\n<p>Normal paragraph here.</p>";
    assert_eq!(parse_markdown(input), expected);
}
