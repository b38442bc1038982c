use cef_scan::extract::{get_folder, noise};
use cef_scan::error::{IndexError, ScanError};
use cef_scan::scan::{begin, open};
use cef_scan::stream::CefResult;

fn chars(text: &str) -> Vec<char> {
    text.chars().collect()
}

#[test]
fn hits_in_one_directory_give_one_candidate() {
    let dirs = get_folder("C:\\A\\B\\x_100_.pak\r\nC:\\A\\B\\y.pak\r\n");
    assert_eq!(dirs, vec!["C:\\A\\B"]);
}

#[test]
fn candidates_come_in_the_order_of_their_first_hit() {
    let dirs = get_folder("D:\\two\\a.pak\nC:\\one\\libcef.dll\nD:\\two\\b.pak\nE:\\three\\node.dll");
    assert_eq!(dirs, vec!["D:\\two", "C:\\one", "E:\\three"]);
}

#[test]
fn a_hit_in_the_recycle_bin_gives_no_candidate() {
    assert_eq!(get_folder("C:\\$Recycle.Bin\\S-1\\foo.pak"), Vec::<String>::new());
    assert_eq!(get_folder("D:\\$RECYCLE.BIN\\S-1\\foo.pak"), Vec::<String>::new());
}

#[test]
fn a_hit_in_the_cloud_directory_gives_no_candidate() {
    assert_eq!(get_folder("C:\\Users\\me\\OneDrive\\app\\libcef.dll"), Vec::<String>::new());
}

#[test]
fn a_hit_under_the_system_directory_gives_no_candidate() {
    assert_eq!(get_folder("C:\\Windows\\System32\\node.dll"), Vec::<String>::new());
    assert_eq!(get_folder("C:\\Windows\\libcef.dll"), Vec::<String>::new());
}

#[test]
fn a_directory_named_like_the_system_directory_is_a_candidate() {
    assert_eq!(get_folder("C:\\Windows.old\\app\\libcef.dll"), vec!["C:\\Windows.old\\app"]);
    assert_eq!(get_folder("C:\\WindowsApps\\x\\libcef.dll"), vec!["C:\\WindowsApps\\x"]);
    assert_eq!(get_folder("D:\\Windows\\x\\libcef.dll"), vec!["D:\\Windows\\x"]);
    assert_eq!(get_folder("D:\\copy\\C:\\Windows\\x.pak"), vec!["D:\\copy\\C:\\Windows"]);
}

#[test]
fn noise_is_told_by_its_marks() {
    assert!(noise(&chars("C:\\$Recycle.Bin\\S-1\\foo.pak")));
    assert!(noise(&chars("X:\\a\\OneDrive\\b")));
    assert!(noise(&chars("C:\\Windows\\a.pak")));
    assert!(noise(&chars("C:\\Windows/a.pak")));
    assert!(noise(&chars("C:\\Windows\\")));
    assert!(!noise(&chars("C:\\Windows")));
    assert!(!noise(&chars("C:\\Windows.old\\a.pak")));
    assert!(!noise(&chars("C:\\WindowsApps\\a.pak")));
    assert!(!noise(&chars("D:\\Windows\\a.pak")));
    assert!(!noise(&chars("C:\\$recycle.bin\\a.pak")));
    assert!(!noise(&chars("C:\\OneDrive")));
    assert!(!noise(&chars("")));
}

#[test]
fn noise_among_other_hits_changes_nothing() {
    let with = get_folder("C:\\A\\a.pak\nC:\\$Recycle.Bin\\S-1\\foo.pak\nC:\\B\\b.pak\n");
    let without = get_folder("C:\\A\\a.pak\nC:\\B\\b.pak\n");
    assert_eq!(with, without);
    assert_eq!(with, vec!["C:\\A", "C:\\B"]);
}

#[test]
fn empty_lines_and_roots_give_no_candidate() {
    assert_eq!(get_folder("\r\n\r\nC:\\\r\n"), Vec::<String>::new());
    assert_eq!(get_folder(""), Vec::<String>::new());
}

#[test]
fn a_file_at_the_top_of_a_drive_gives_the_root() {
    assert_eq!(get_folder("D:\\libcef.dll"), vec!["D:\\"]);
}

#[test]
fn begin_joins_the_answers_of_the_three_queries() {
    let (candidates, aggregator, count) = begin(
        "C:\\A\\B\\x_100_.pak\r\nC:\\A\\C\\z_100_.pak\r\n",
        "C:\\A\\B\\libcef.dll\r\n",
        "C:\\A\\D\\node.dll\r\n",
    );
    assert_eq!(candidates, vec!["C:\\A\\B", "C:\\A\\C", "C:\\A\\D"]);
    assert_eq!(count, CefResult::Count(3));
    assert_eq!(aggregator.candidates(), 3);
    assert_eq!(aggregator.done(), 0);
}

#[test]
fn begin_reads_the_answers_as_one_text() {
    let (candidates, _, count) = begin("C:\\A\\B\\x_100_.pak", "\r\nC:\\A\\B\\libcef.dll", "");
    assert_eq!(candidates, vec!["C:\\A\\B"]);
    assert_eq!(count, CefResult::Count(1));
    let (merged, _, _) = begin("C:\\A\\x", "C:\\B\\y", "");
    assert_eq!(merged, vec!["C:\\A\\xC:\\B"]);
}

#[test]
fn a_scan_opens_with_the_answers_of_all_three_queries() {
    let opened = open(
        Ok("C:\\A\\B\\x_100_.pak\r\n".to_string()),
        Ok("C:\\A\\B\\libcef.dll\r\n".to_string()),
        Ok("C:\\A\\D\\node.dll\r\n".to_string()),
    );
    let (candidates, aggregator, count) = opened.unwrap();
    assert_eq!(candidates, vec!["C:\\A\\B", "C:\\A\\D"]);
    assert_eq!(count, CefResult::Count(2));
    assert_eq!(aggregator.candidates(), 2);
}

#[test]
fn a_failed_query_ends_the_scan_before_it_begins() {
    let tool = |text: &str| IndexError::Tool(text.to_string());
    let ok = || Ok("C:\\A\\x.pak".to_string());
    assert_eq!(open(Err(tool("first")), ok(), ok()).unwrap_err(), ScanError::Index(tool("first")));
    assert_eq!(open(ok(), Err(tool("second")), ok()).unwrap_err(), ScanError::Index(tool("second")));
    assert_eq!(open(ok(), ok(), Err(IndexError::Decode)).unwrap_err(), ScanError::Index(IndexError::Decode));
    assert_eq!(
        open(Err(tool("first")), Err(tool("second")), Err(tool("third"))).unwrap_err(),
        ScanError::Index(tool("first"))
    );
    assert_eq!(
        open(ok(), Err(tool("second")), Err(tool("third"))).unwrap_err(),
        ScanError::Index(tool("second"))
    );
}
