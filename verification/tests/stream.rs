use cef_scan::error::{IndexError, ResolveError, ScanError, StreamError};
use cef_scan::resolve::Resolved;
use cef_scan::scan::{join, record as record_of};
use cef_scan::size::CefSize;
use cef_scan::stream::{sort_by_size, Aggregator, CefResult, Record};

fn found(name: &str) -> Resolved {
    Resolved {
        name: name.to_string(),
        path: format!("C:\\{}", name),
        icon: format!("icon of {}", name),
    }
}

fn record(name: &str, size: u64) -> Record {
    Record::new(found(name), CefSize::from_bytes(size))
}

fn path(name: &str, size: u64) -> CefResult {
    CefResult::Path {
        name: name.to_string(),
        path: format!("C:\\{}", name),
        icon: format!("icon of {}", name),
        size: CefSize::from_bytes(size),
    }
}

fn total(size: u64) -> CefResult {
    CefResult::TotalSize(CefSize::from_bytes(size))
}

fn names(records: &[Record]) -> Vec<String> {
    records.iter().map(|r| r.name.clone()).collect()
}

fn run(sizes: &[(&str, u64)]) -> Vec<CefResult> {
    let (mut aggregator, count) = Aggregator::new(sizes.len());
    let mut events = vec![count];
    for (name, size) in sizes {
        let (next, record, total) =
            aggregator.complete(found(name), CefSize::from_bytes(*size)).unwrap();
        aggregator = next;
        events.push(record);
        events.push(total);
    }
    events.extend(aggregator.finish().unwrap());
    events
}

#[test]
fn a_record_reports_itself() {
    let r = record("a", 5);
    assert_eq!(r.event(), path("a", 5));
    assert_eq!(r.duplicate(), r);
    assert_eq!(r.size.bytes(), 5);
}

#[test]
fn records_are_sorted_from_the_largest() {
    let records = vec![record("a", 5), record("b", 50), record("c", 1), record("d", 20)];
    assert_eq!(names(&sort_by_size(&records)), vec!["b", "d", "a", "c"]);
    assert_eq!(names(&sort_by_size(&Vec::new())), Vec::<String>::new());
}

#[test]
fn records_of_one_size_keep_their_order() {
    let records = vec![
        record("a", 7),
        record("b", 9),
        record("c", 7),
        record("d", 9),
        record("e", 7),
        record("f", 8),
    ];
    assert_eq!(names(&sort_by_size(&records)), vec!["b", "d", "f", "a", "c", "e"]);
}

#[test]
fn sorting_agrees_with_the_standard_library() {
    let sizes = [3u64, 1, 4, 1, 5, 9, 2, 6, 5, 3, 5, 8, 9, 7, 9];
    let records: Vec<Record> =
        sizes.iter().enumerate().map(|(i, s)| record(&format!("r{}", i), *s)).collect();
    let mut expected: Vec<(String, u64)> =
        records.iter().map(|r| (r.name.clone(), r.size.bytes())).collect();
    expected.sort_by(|a, b| b.1.cmp(&a.1));
    let sorted: Vec<(String, u64)> =
        sort_by_size(&records).iter().map(|r| (r.name.clone(), r.size.bytes())).collect();
    assert_eq!(sorted, expected);
}

#[test]
fn a_scan_reports_count_records_totals_marker_and_replay() {
    let events = run(&[("a", 100), ("b", 300), ("c", 200)]);
    assert_eq!(
        events,
        vec![
            CefResult::Count(3),
            path("a", 100),
            total(100),
            path("b", 300),
            total(400),
            path("c", 200),
            total(600),
            CefResult::Sign,
            path("b", 300),
            path("c", 200),
            path("a", 100),
        ]
    );
}

#[test]
fn the_count_is_the_number_of_records_before_the_marker() {
    let events = run(&[("a", 1), ("b", 2), ("c", 3), ("d", 4)]);
    let marker = events.iter().position(|e| *e == CefResult::Sign).unwrap();
    let before =
        events[..marker].iter().filter(|e| matches!(e, CefResult::Path { .. })).count();
    assert_eq!(events[0], CefResult::Count(4));
    assert_eq!(before, 4);
    assert_eq!(events.iter().filter(|e| **e == CefResult::Sign).count(), 1);
}

#[test]
fn the_last_total_is_the_sum_of_all_sizes() {
    let events = run(&[("a", 10), ("b", 20), ("c", 30)]);
    let marker = events.iter().position(|e| *e == CefResult::Sign).unwrap();
    assert_eq!(events[marker - 1], total(60));
}

#[test]
fn the_replay_holds_the_same_records_sorted() {
    let events = run(&[("a", 10), ("b", 30), ("c", 20), ("d", 30)]);
    let marker = events.iter().position(|e| *e == CefResult::Sign).unwrap();
    let mut before: Vec<CefResult> = events[..marker]
        .iter()
        .filter(|e| matches!(e, CefResult::Path { .. }))
        .cloned()
        .collect();
    let after: Vec<CefResult> = events[marker + 1..].to_vec();
    assert_eq!(after, vec![path("b", 30), path("d", 30), path("c", 20), path("a", 10)]);
    before.sort_by_key(|e| format!("{:?}", e));
    let mut sorted_after = after.clone();
    sorted_after.sort_by_key(|e| format!("{:?}", e));
    assert_eq!(before, sorted_after);
}

#[test]
fn a_scan_without_candidates_reports_the_count_and_the_marker() {
    assert_eq!(run(&[]), vec![CefResult::Count(0), CefResult::Sign]);
}

#[test]
fn the_aggregator_counts_what_it_has() {
    let (aggregator, count) = Aggregator::new(2);
    assert_eq!(count, CefResult::Count(2));
    assert_eq!(aggregator.candidates(), 2);
    assert_eq!(aggregator.done(), 0);
    assert_eq!(aggregator.total(), CefSize::from_bytes(0));
    let (aggregator, _, _) = aggregator.complete(found("a"), CefSize::from_bytes(7)).unwrap();
    assert_eq!(aggregator.done(), 1);
    assert_eq!(aggregator.total(), CefSize::from_bytes(7));
}

#[test]
fn a_record_too_many_is_an_error() {
    let (aggregator, _) = Aggregator::new(1);
    let (aggregator, _, _) = aggregator.complete(found("a"), CefSize::from_bytes(7)).unwrap();
    let err = aggregator.complete(found("b"), CefSize::from_bytes(1)).unwrap_err();
    assert_eq!(err, StreamError::Unexpected);
    let (none, _) = Aggregator::new(0);
    assert_eq!(
        none.complete(found("a"), CefSize::from_bytes(1)).unwrap_err(),
        StreamError::Unexpected
    );
}

#[test]
fn a_total_beyond_the_range_is_an_error() {
    let (aggregator, _) = Aggregator::new(2);
    let (aggregator, _, total) =
        aggregator.complete(found("a"), CefSize::from_bytes(u64::MAX)).unwrap();
    assert_eq!(total, CefResult::TotalSize(CefSize::from_bytes(u64::MAX)));
    let err = aggregator.complete(found("b"), CefSize::from_bytes(1)).unwrap_err();
    assert_eq!(err, StreamError::Overflow);
}

#[test]
fn a_scan_cannot_end_before_every_candidate_has_a_record() {
    let (aggregator, _) = Aggregator::new(2);
    let (aggregator, _, _) = aggregator.complete(found("a"), CefSize::from_bytes(7)).unwrap();
    assert_eq!(aggregator.finish().unwrap_err(), StreamError::Incomplete);
}

#[test]
fn both_halves_of_a_resolution_must_succeed() {
    let size = CefSize::from_bytes(9);
    assert_eq!(join(Ok(found("a")), Ok(size)), Ok(record("a", 9)));
    assert_eq!(join(Ok(found("a")), Err(ResolveError::Size)), Err(ResolveError::Size));
    assert_eq!(
        join(Err(ResolveError::Icon("no".to_string())), Ok(size)),
        Err(ResolveError::Icon("no".to_string()))
    );
    assert_eq!(
        join(Err(ResolveError::Icon("no".to_string())), Err(ResolveError::Size)),
        Err(ResolveError::Icon("no".to_string()))
    );
}

#[test]
fn a_record_needs_a_search_and_a_listing_that_succeeded() {
    let listing = || Ok("100 C:\\a\\x\r\n50 C:\\a\\y\r\n".to_string());
    assert_eq!(record_of(Ok(found("a")), listing()), Ok(record("a", 150)));
    assert_eq!(
        record_of(Err(ScanError::Resolve(ResolveError::Icon("no".to_string()))), listing()),
        Err(ScanError::Resolve(ResolveError::Icon("no".to_string())))
    );
    assert_eq!(
        record_of(Ok(found("a")), Err(IndexError::Tool("bad".to_string()))),
        Err(ScanError::Index(IndexError::Tool("bad".to_string())))
    );
    assert_eq!(
        record_of(Ok(found("a")), Ok("abc C:\\a\\x".to_string())),
        Err(ScanError::Resolve(ResolveError::Size))
    );
    assert_eq!(
        record_of(
            Err(ScanError::Index(IndexError::Decode)),
            Err(IndexError::Tool("bad".to_string()))
        ),
        Err(ScanError::Index(IndexError::Decode))
    );
}
