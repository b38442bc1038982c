use cef_scan::path::{file_name, parent};
use cef_scan::text::{lines, text_lines};

fn s(text: &str) -> Option<String> {
    Some(text.to_string())
}

#[test]
fn parent_of_a_file_is_its_directory() {
    assert_eq!(parent("C:\\A\\B\\x_100_.pak"), s("C:\\A\\B"));
    assert_eq!(parent("C:\\A\\B"), s("C:\\A"));
}

#[test]
fn parent_of_a_top_level_name_is_the_root() {
    assert_eq!(parent("C:\\A"), s("C:\\"));
    assert_eq!(parent("\\A"), s("\\"));
}

#[test]
fn a_root_has_no_parent() {
    assert_eq!(parent("C:\\"), None);
    assert_eq!(parent("C:"), None);
    assert_eq!(parent("\\"), None);
    assert_eq!(parent(""), None);
}

#[test]
fn parent_ignores_trailing_and_repeated_separators() {
    assert_eq!(parent("C:\\A\\B\\"), s("C:\\A"));
    assert_eq!(parent("C:\\A\\\\B"), s("C:\\A"));
    assert_eq!(parent("C:/A/B"), s("C:/A"));
}

#[test]
fn parent_of_a_relative_name_is_empty() {
    assert_eq!(parent("name"), s(""));
    assert_eq!(parent("dir\\name"), s("dir"));
    assert_eq!(parent("C:name"), s("C:"));
}

#[test]
fn file_name_is_the_last_component() {
    assert_eq!(file_name("C:\\A\\B"), s("B"));
    assert_eq!(file_name("C:\\A\\B\\tool.exe"), s("tool.exe"));
    assert_eq!(file_name("C:\\A\\B\\"), s("B"));
    assert_eq!(file_name("name"), s("name"));
}

#[test]
fn a_root_has_no_file_name() {
    assert_eq!(file_name("C:\\"), None);
    assert_eq!(file_name("C:"), None);
    assert_eq!(file_name(""), None);
}

#[test]
fn lines_end_at_line_feeds() {
    assert_eq!(text_lines("a\nb\r\nc"), vec!["a", "b", "c"]);
    assert_eq!(text_lines("a\r\n"), vec!["a"]);
    assert_eq!(text_lines(""), Vec::<String>::new());
}

#[test]
fn lines_keep_empty_lines_and_lone_carriage_returns() {
    assert_eq!(text_lines("foo\nbar\n\r\nbaz\r"), vec!["foo", "bar", "", "baz\r"]);
    assert_eq!(text_lines("\n"), vec![""]);
    assert_eq!(text_lines("a\r\r\n"), vec!["a\r"]);
}

#[test]
fn lines_as_buffers_hold_the_same_characters() {
    let all = lines("ab\ncd");
    assert_eq!(all, vec![vec!['a', 'b'], vec!['c', 'd']]);
}

#[test]
fn lines_agree_with_the_standard_library() {
    for text in ["", "x", "x\n", "\r\n", "a\n\nb", "a\r\nb\r\n", "a\rb\n", "\r", "é\r\nü"] {
        let expected: Vec<String> = text.lines().map(|l| l.to_string()).collect();
        assert_eq!(text_lines(text), expected);
    }
}

#[test]
fn dots_are_names_like_any_other() {
    assert_eq!(parent("C:\\A\\."), s("C:\\A"));
    assert_eq!(file_name("C:\\A\\."), s("."));
    assert_eq!(parent("C:\\A\\.."), s("C:\\A"));
    assert_eq!(file_name("C:\\A\\.."), s(".."));
}

#[test]
fn a_network_prefix_is_read_as_two_names() {
    assert_eq!(parent("\\\\server\\share\\dir"), s("\\\\server\\share"));
    assert_eq!(parent("\\\\server\\share"), s("\\\\server"));
    assert_eq!(parent("\\\\server"), s("\\\\"));
    assert_eq!(parent("\\\\"), None);
    assert_eq!(file_name("\\\\server\\share"), s("share"));
}
