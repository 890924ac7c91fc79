use autofmt::indent::write_indent;
use autofmt::text::write_reindented;
use autofmt::write_tabs;

fn moved(text: &str, depth: usize, width: usize) -> String {
    let mut buf = String::new();
    write_reindented(&mut buf, text, depth, width);
    buf
}

#[test]
fn tabs_are_four_spaces_each() {
    let mut buf = String::from("x");
    assert_eq!(write_tabs(&mut buf, 0), Ok(()));
    assert_eq!(buf, "x");
    assert_eq!(write_tabs(&mut buf, 1), Ok(()));
    assert_eq!(buf, "x    ");
    assert_eq!(write_tabs(&mut buf, 3), Ok(()));
    assert_eq!(buf, "x                ");
    assert_eq!(buf.len(), 17);
}

#[test]
fn indent_is_depth_times_width_spaces() {
    let mut buf = String::new();
    write_indent(&mut buf, 3, 2);
    assert_eq!(buf, "      ");
    write_indent(&mut buf, 5, 0);
    write_indent(&mut buf, 0, 7);
    assert_eq!(buf, "      ");
    write_indent(&mut buf, 1, 1);
    assert_eq!(buf, "       ");
}

#[test]
fn later_lines_start_at_the_new_depth() {
    assert_eq!(moved("foo(\n  bar,\n)", 1, 4), "foo(\n      bar,\n    )");
}

#[test]
fn a_single_line_is_unchanged() {
    assert_eq!(moved("a + b", 5, 4), "a + b");
    assert_eq!(moved("", 5, 4), "");
}

#[test]
fn empty_lines_are_kept_and_padded() {
    assert_eq!(moved("a\n\nb\n", 1, 2), "a\n  \n  b\n  ");
    assert_eq!(moved("\n", 1, 4), "\n    ");
}

#[test]
fn depth_zero_leaves_the_text_as_it_is() {
    assert_eq!(moved("a\n  b\nc", 0, 4), "a\n  b\nc");
}

#[test]
fn characters_beyond_ascii_are_kept() {
    assert_eq!(moved("é(\n→\n)", 1, 1), "é(\n →\n )");
}

#[test]
fn reindented_text_is_appended() {
    let mut buf = String::from("x: ");
    write_reindented(&mut buf, "{\n}", 2, 4);
    assert_eq!(buf, "x: {\n        }");
}
