use cef_scan::error::{IndexError, ResolveError, ScanError};
use cef_scan::icons::{can_encode, encode_icon, IconTable, DEFAULT_ICON, ICON_SIZE};
use cef_scan::resolve::{name, Listing, Resolved, Step, MAX_CLIMBS};

fn table() -> IconTable {
    let icons = vec![
        "R0VORVJJQw==".to_string(),
        "Rk9MREVS".to_string(),
        "RVhF".to_string(),
        "\"REVGQVVMVA==\"".to_string(),
        "T1RIRVI=".to_string(),
    ];
    IconTable::new(icons).unwrap()
}

fn resolved(name: &str, path: &str, icon: &str) -> Resolved {
    Resolved { name: name.to_string(), path: path.to_string(), icon: icon.to_string() }
}

fn probe(step: Step) -> cef_scan::resolve::Probe {
    match step {
        Step::Extract(probe) => probe,
        other => panic!("expected a probe, got {:?}", other),
    }
}

fn listing(step: Step) -> Listing {
    match step {
        Step::Query(listing) => listing,
        other => panic!("expected a listing, got {:?}", other),
    }
}

fn done(step: Step) -> Resolved {
    match step {
        Step::Done(found) => found,
        other => panic!("expected the end, got {:?}", other),
    }
}

#[test]
fn icons_travel_as_base64_text() {
    assert_eq!(encode_icon(&b"hello".to_vec()), "aGVsbG8=");
    assert_eq!(encode_icon(&vec![0xfb, 0xff]), "+/8=");
    assert_eq!(encode_icon(&Vec::new()), "");
    assert!(can_encode(0));
    assert!(can_encode(1 << 20));
    assert!(!can_encode(usize::MAX));
}

#[test]
fn the_constants_are_fixed() {
    assert_eq!(DEFAULT_ICON, 3);
    assert_eq!(ICON_SIZE, 32);
    assert_eq!(MAX_CLIMBS, 10);
}

#[test]
fn a_table_needs_a_default_icon() {
    assert!(IconTable::new(Vec::new()).is_none());
    assert!(IconTable::new(vec!["a".to_string(), "b".to_string(), "c".to_string()]).is_none());
    let four = vec!["a".to_string(), "b".to_string(), "c".to_string(), "d".to_string()];
    let table = IconTable::new(four).unwrap();
    assert_eq!(table.len(), 4);
    assert_eq!(table.fallback(), "d");
}

#[test]
fn generic_icons_are_those_of_the_table() {
    let table = table();
    assert!(table.generic("R0VORVJJQw=="));
    assert!(table.generic("T1RIRVI="));
    assert!(table.generic("\"REVGQVVMVA==\""));
    assert!(!table.generic("REVGQVVMVA=="));
    assert!(!table.generic("r0vorvjjqw=="));
    assert!(!table.generic(""));
}

#[test]
fn the_default_icon_has_no_quotation_marks() {
    assert_eq!(table().fallback(), "REVGQVVMVA==");
}

#[test]
fn the_name_is_the_last_component() {
    assert_eq!(name("C:\\A\\B"), "B");
    assert_eq!(name("C:\\A\\tool.exe"), "tool.exe");
    assert_eq!(name("C:\\"), "");
}

#[test]
fn a_search_starts_by_asking_for_the_candidate() {
    let start = Listing::new("C:\\A\\B".to_string());
    assert_eq!(start.path(), "C:\\A\\B");
    assert_eq!(start.arguments(), vec!["-p", "C:\\A\\B", "-r", "\\.exe$"]);
}

#[test]
fn the_first_file_with_an_icon_of_its_own_stands_for_the_candidate() {
    let table = table();
    let start = Listing::new("C:\\App".to_string());
    let first = probe(start.answer("C:\\App\\helper.exe\r\nC:\\App\\app.exe\r\nC:\\App\\z.exe\r\n", &table));
    assert_eq!(first.exe(), "C:\\App\\helper.exe");
    let second = probe(first.answer(Ok(b"GENERIC".to_vec()), &table).unwrap());
    assert_eq!(second.exe(), "C:\\App\\app.exe");
    let found = done(second.answer(Ok(b"own icon".to_vec()), &table).unwrap());
    assert_eq!(found, resolved("app.exe", "C:\\App\\app.exe", "b3duIGljb24="));
}

#[test]
fn a_judged_icon_is_compared_as_text() {
    let table = table();
    let start = Listing::new("C:\\App".to_string());
    let first = probe(start.answer("C:\\App\\a.exe\nC:\\App\\b.exe", &table));
    let second = probe(first.judge("Rk9MREVS".to_string(), &table));
    assert_eq!(second.exe(), "C:\\App\\b.exe");
    let found = done(second.judge("SOMETHING".to_string(), &table));
    assert_eq!(found, resolved("b.exe", "C:\\App\\b.exe", "SOMETHING"));
}

#[test]
fn an_icon_that_cannot_be_extracted_fails_the_candidate() {
    let table = table();
    let start = Listing::new("C:\\App".to_string());
    let first = probe(start.answer("C:\\App\\a.exe", &table));
    let failed = first.answer(Err("access denied".to_string()), &table);
    assert_eq!(failed.unwrap_err(), ResolveError::Icon("access denied".to_string()));
}

#[test]
fn a_search_without_files_climbs_to_the_parent() {
    let table = table();
    let start = Listing::new("C:\\Apps\\Tool\\resources".to_string());
    let above = listing(start.answer("", &table));
    assert_eq!(above.path(), "C:\\Apps\\Tool");
    assert_eq!(above.arguments(), vec!["-p", "C:\\Apps\\Tool", "-r", "\\.exe$"]);
    let first = probe(above.answer("C:\\Apps\\Tool\\tool.exe\r\n", &table));
    let found = done(first.answer(Ok(b"tool".to_vec()), &table).unwrap());
    assert_eq!(found, resolved("tool.exe", "C:\\Apps\\Tool\\tool.exe", "dG9vbA=="));
}

#[test]
fn a_search_with_generic_icons_only_climbs_to_the_parent() {
    let table = table();
    let start = Listing::new("C:\\Apps\\Tool\\bin".to_string());
    let first = probe(start.answer("C:\\Apps\\Tool\\bin\\a.exe\r\nC:\\Apps\\Tool\\bin\\b.exe", &table));
    let second = probe(first.answer(Ok(b"EXE".to_vec()), &table).unwrap());
    let above = listing(second.answer(Ok(b"OTHER".to_vec()), &table).unwrap());
    assert_eq!(above.path(), "C:\\Apps\\Tool");
}

#[test]
fn a_file_that_is_no_executable_is_searched_in_turn() {
    let table = table();
    let start = Listing::new("C:\\App".to_string());
    let first = probe(start.answer("C:\\App\\SETUP.EXE", &table));
    let next = listing(first.answer(Ok(b"setup".to_vec()), &table).unwrap());
    assert_eq!(next.path(), "C:\\App\\SETUP.EXE");
    let second = probe(next.answer("C:\\App\\SETUP.EXE\\inner.exe", &table));
    let found = done(second.answer(Ok(b"inner".to_vec()), &table).unwrap());
    assert_eq!(found, resolved("inner.exe", "C:\\App\\SETUP.EXE\\inner.exe", "aW5uZXI="));
}

#[test]
fn a_search_that_reaches_the_root_falls_back() {
    let table = table();
    let start = Listing::new("C:\\A\\B".to_string());
    let first = listing(start.answer("", &table));
    assert_eq!(first.path(), "C:\\A");
    let second = listing(first.answer("", &table));
    assert_eq!(second.path(), "C:\\");
    let found = done(second.answer("", &table));
    assert_eq!(found, resolved("B", "C:\\A\\B", "REVGQVVMVA=="));
}

#[test]
fn a_search_climbs_ten_times_at_most() {
    let table = table();
    let input = "C:\\1\\2\\3\\4\\5\\6\\7\\8\\9\\10\\11\\12\\13";
    let mut step = Step::Query(Listing::new(input.to_string()));
    let mut queries = 0;
    let mut asked = Vec::new();
    let found = loop {
        match step {
            Step::Query(listing) => {
                queries += 1;
                asked.push(listing.path().clone());
                step = listing.answer("", &table);
            }
            Step::Extract(_) => panic!("no file was listed"),
            Step::Done(found) => break found,
        }
    };
    assert_eq!(queries, 11);
    assert_eq!(asked[0], input);
    assert_eq!(asked[10], "C:\\1\\2\\3");
    assert_eq!(found, resolved("13", input, "REVGQVVMVA=="));
}

#[test]
fn a_search_among_generic_icons_ends_in_the_fallback() {
    let table = table();
    let input = "D:\\a\\b\\c\\d\\e\\f\\g\\h\\i\\j\\k\\l\\m\\n";
    let mut step = Step::Query(Listing::new(input.to_string()));
    let mut queries = 0;
    let mut icons = 0;
    let found = loop {
        match step {
            Step::Query(listing) => {
                queries += 1;
                let path = listing.path().clone();
                let answer = format!("{}\\one.exe\r\n{}\\two.exe\r\n", path, path);
                step = listing.answer(&answer, &table);
            }
            Step::Extract(probe) => {
                icons += 1;
                step = probe.answer(Ok(b"FOLDER".to_vec()), &table).unwrap();
            }
            Step::Done(found) => break found,
        }
    };
    assert_eq!(queries, 11);
    assert_eq!(icons, 22);
    assert_eq!(found, resolved("n", input, "REVGQVVMVA=="));
}

#[test]
fn an_empty_icon_ends_in_the_fallback() {
    let table = table();
    let start = Listing::new("C:\\App".to_string());
    let first = probe(start.answer("C:\\App\\app.exe", &table));
    let found = done(first.answer(Ok(Vec::new()), &table).unwrap());
    assert_eq!(found, resolved("App", "C:\\App", "REVGQVVMVA=="));
}

#[test]
fn a_candidate_at_the_root_has_no_name() {
    let table = table();
    let start = Listing::new("D:\\".to_string());
    let found = done(start.answer("", &table));
    assert_eq!(found, resolved("", "D:\\", "REVGQVVMVA=="));
}

#[test]
fn a_failed_query_ends_the_search() {
    let table = table();
    let start = Listing::new("C:\\App".to_string());
    let failed = start.reply(Err(IndexError::Tool("bad switch".to_string())), &table);
    assert_eq!(failed.unwrap_err(), ScanError::Index(IndexError::Tool("bad switch".to_string())));
}

#[test]
fn a_reply_is_followed_as_an_answer_is() {
    let table = table();
    let start = Listing::new("C:\\App".to_string());
    let first = probe(start.reply(Ok("C:\\App\\a.exe\r\nC:\\App\\b.exe".to_string()), &table).unwrap());
    assert_eq!(first.exe(), "C:\\App\\a.exe");
    let second = probe(first.reply(Ok(b"FOLDER".to_vec()), &table).unwrap());
    assert_eq!(second.exe(), "C:\\App\\b.exe");
    let failed = second.reply(Err("access denied".to_string()), &table);
    assert_eq!(
        failed.unwrap_err(),
        ScanError::Resolve(ResolveError::Icon("access denied".to_string()))
    );
}
