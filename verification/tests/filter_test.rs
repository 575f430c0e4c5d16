use cronclearer::filter::filter_trace;

#[test]
fn removes_prefixed_lines_in_order() {
    let clean = filter_trace("keep one\n+ dropped\nkeep two\n+ also dropped\nkeep three", "+ ");
    assert_eq!(clean, "keep one\nkeep two\nkeep three");
}

#[test]
fn prefix_match_is_exact_not_a_pattern() {
    // "+x" does not start with "+ " (no space), so it stays.
    let clean = filter_trace("+x\n+ y\n", "+ ");
    assert_eq!(clean, "+x");
}

#[test]
fn no_trailing_newline_is_added() {
    assert_eq!(filter_trace("a\n", "+ "), "a");
    assert_eq!(filter_trace("a\nb\n", "+ "), "a\nb");
    assert_eq!(filter_trace("a\nb", "+ "), "a\nb");
}

#[test]
fn carriage_returns_are_kept_verbatim() {
    assert_eq!(filter_trace("a\r\nb\n", "+ "), "a\r\nb");
}

#[test]
fn empty_input_gives_empty_output() {
    assert_eq!(filter_trace("", "+ "), "");
}

#[test]
fn empty_prefix_discards_every_line() {
    assert_eq!(filter_trace("a\nb\nc\n", ""), "");
    assert_eq!(filter_trace("", ""), "");
}

#[test]
fn filtering_twice_changes_nothing() {
    let once = filter_trace("a\n+ x\nb\n+ y", "+ ");
    assert_eq!(once, "a\nb");
    assert_eq!(filter_trace(&once, "+ "), once);

    // With the empty prefix both passes give the empty text.
    let all_gone = filter_trace("a\nb", "");
    assert_eq!(filter_trace(&all_gone, ""), all_gone);
}

#[test]
fn trailing_empty_line_vanishes_on_a_second_pass() {
    // The one input shape on which a second pass differs: the last kept
    // line is empty, so the join ends in a newline that a re-split no
    // longer reads as a line.
    let once = filter_trace("a\n\n", "+ ");
    assert_eq!(once, "a\n");
    assert_eq!(filter_trace(&once, "+ "), "a");
}
