//! The events that a scan reports, and the order they come in.
//!
//! A scan reports how many candidates it found, then each candidate as
//! it is resolved, followed by the total size so far, then a marker, then
//! every candidate once more, the largest first. The `Aggregator` keeps
//! the records and the total and hands out the events; sending them is
//! the caller's part.

use vstd::prelude::*;
use crate::error::StreamError;
use crate::resolve::{Finding, Resolved};
use crate::size::CefSize;

verus! {

/// One event of a scan.
#[derive(Debug, Clone, PartialEq, Eq)]
pub enum CefResult {
    /// A candidate that has been resolved.
    Path {
        /// The last component of `path`.
        name: String,
        /// The file or directory that stands for the candidate.
        path: String,
        /// Its icon, as Base64 text.
        icon: String,
        /// The size of all files under the candidate.
        size: CefSize,
    },
    /// The number of candidates.
    Count(usize),
    /// The size of all candidates resolved so far.
    TotalSize(CefSize),
    /// The marker after which the candidates come again, sorted.
    Sign,
}

/// A candidate that has been resolved, and its size.
#[derive(Debug, PartialEq, Eq)]
pub struct Record {
    /// The last component of `path`.
    pub name: String,
    /// The file or directory that stands for the candidate.
    pub path: String,
    /// Its icon, as Base64 text.
    pub icon: String,
    /// The size of all files under the candidate.
    pub size: CefSize,
}

/// Plain values that stand for a `Record` in contracts.
pub struct Entry {
    pub name: Seq<char>,
    pub path: Seq<char>,
    pub icon: Seq<char>,
    pub size: nat,
}

/// Plain values that stand for a `CefResult` in contracts.
pub enum Event {
    Path(Entry),
    Count(nat),
    TotalSize(nat),
    Sign,
}

impl View for Record {
    type V = Entry;

    open spec fn view(&self) -> Entry {
        Entry { name: self.name@, path: self.path@, icon: self.icon@, size: self.size@ }
    }
}

impl View for CefResult {
    type V = Event;

    open spec fn view(&self) -> Event {
        match self {
            CefResult::Path { name, path, icon, size } => Event::Path(
                Entry { name: name@, path: path@, icon: icon@, size: size@ },
            ),
            CefResult::Count(n) => Event::Count(*n as nat),
            CefResult::TotalSize(size) => Event::TotalSize(size@),
            CefResult::Sign => Event::Sign,
        }
    }
}

/// What each record of `records` holds, as plain values.
pub open spec fn entries_of(records: Seq<Record>) -> Seq<Entry> {
    Seq::new(records.len(), |i: int| records[i]@)
}

/// What each event of `events` holds, as plain values.
pub open spec fn events_of(events: Seq<CefResult>) -> Seq<Event> {
    Seq::new(events.len(), |i: int| events[i]@)
}

/// The record of a candidate that was resolved to `found` and has the
/// size `size`.
pub open spec fn entry_of(found: Finding, size: nat) -> Entry {
    Entry { name: found.name, path: found.path, icon: found.icon, size }
}

/// The sum of the sizes of `records`.
pub open spec fn total_size(records: Seq<Entry>) -> nat
    decreases records.len(),
{
    if records.len() == 0 {
        0
    } else {
        total_size(records.drop_last()) + records.last().size
    }
}

/// The events of a scan with `count` candidates of which `records` have
/// been resolved, in this order: the count, then each record, followed
/// by the total size of the records up to it.
pub open spec fn progress(count: nat, records: Seq<Entry>) -> Seq<Event>
    decreases records.len(),
{
    if records.len() == 0 {
        seq![Event::Count(count)]
    } else {
        progress(count, records.drop_last()) + seq![
            Event::Path(records.last()),
            Event::TotalSize(total_size(records)),
        ]
    }
}

/// The number of records at the start of `sorted` that are at least
/// `size` large.
pub open spec fn place_of(sorted: Seq<Entry>, size: nat) -> int
    decreases sorted.len(),
{
    if sorted.len() == 0 || sorted[0].size < size {
        0
    } else {
        1 + place_of(sorted.drop_first(), size)
    }
}

/// `records` from the largest to the smallest; records of one size stay
/// in the order they have in `records`.
pub open spec fn by_size(records: Seq<Entry>) -> Seq<Entry>
    decreases records.len(),
{
    if records.len() == 0 {
        Seq::empty()
    } else {
        let before = by_size(records.drop_last());
        before.insert(place_of(before, records.last().size), records.last())
    }
}

/// The events that end a scan: the marker, then `records` by size.
pub open spec fn replay(records: Seq<Entry>) -> Seq<Event> {
    seq![Event::Sign] + by_size(records).map_values(|entry: Entry| Event::Path(entry))
}

/// All events of a scan that resolved `records`, in order.
pub open spec fn stream(records: Seq<Entry>) -> Seq<Event> {
    progress(records.len(), records) + replay(records)
}

/// The records among `events`, in order.
pub open spec fn records_in(events: Seq<Event>) -> Seq<Entry>
    decreases events.len(),
{
    if events.len() == 0 {
        Seq::empty()
    } else {
        match events.last() {
            Event::Path(entry) => records_in(events.drop_last()).push(entry),
            _ => records_in(events.drop_last()),
        }
    }
}

/// The records of `records` that have the size `size`, in order.
pub open spec fn of_size(records: Seq<Entry>, size: nat) -> Seq<Entry> {
    records.filter(|entry: Entry| entry.size == size)
}

/// Whether each record of `records` is at least as large as the next.
pub open spec fn descending(records: Seq<Entry>) -> bool {
    forall|i: int, j: int| 0 <= i <= j < records.len() ==> records[i].size >= records[j].size
}

/// The place of a size is the one index before which every record is at
/// least as large and at which the record is smaller, unless it is the end.
pub proof fn lemma_place_of(sorted: Seq<Entry>, size: nat, n: int)
    requires
        0 <= n <= sorted.len(),
        forall|j: int| 0 <= j < n ==> sorted[j].size >= size,
        n < sorted.len() ==> sorted[n].size < size,
    ensures
        place_of(sorted, size) == n,
    decreases sorted.len(),
{
    if sorted.len() == 0 || sorted[0].size < size {
    } else {
        let rest = sorted.drop_first();
        assert forall|j: int| 0 <= j < n - 1 implies rest[j].size >= size by {
            assert(rest[j] == sorted[j + 1]);
        }
        lemma_place_of(rest, size, n - 1);
    }
}

/// The place of a size lies in the sequence, after the records that are
/// at least as large; in a descending sequence, before all smaller ones.
pub proof fn lemma_place_bounds(sorted: Seq<Entry>, size: nat)
    ensures
        0 <= place_of(sorted, size) <= sorted.len(),
        forall|j: int| 0 <= j < place_of(sorted, size) ==> sorted[j].size >= size,
        place_of(sorted, size) < sorted.len() ==> sorted[place_of(sorted, size)].size < size,
        descending(sorted) ==> forall|j: int|
            place_of(sorted, size) <= j < sorted.len() ==> sorted[j].size < size,
    decreases sorted.len(),
{
    if sorted.len() == 0 || sorted[0].size < size {
    } else {
        let rest = sorted.drop_first();
        lemma_place_bounds(rest, size);
        assert forall|j: int| 0 <= j < place_of(sorted, size) implies sorted[j].size >= size by {
            if j > 0 {
                assert(rest[j - 1] == sorted[j]);
            }
        }
        if descending(sorted) {
            assert forall|i: int, j: int| 0 <= i <= j < rest.len() implies rest[i].size
                >= rest[j].size by {
                assert(rest[i] == sorted[i + 1]);
                assert(rest[j] == sorted[j + 1]);
            }
            assert forall|j: int| place_of(sorted, size) <= j < sorted.len() implies sorted[j].size
                < size by {
                assert(rest[j - 1] == sorted[j]);
            }
        }
    }
}

/// The sorted records are the same records: each stands in `by_size` as
/// often as in the sequence it was made from.
pub proof fn lemma_by_size_permutes(records: Seq<Entry>)
    ensures
        by_size(records).to_multiset() == records.to_multiset(),
        by_size(records).len() == records.len(),
    decreases records.len(),
{
    broadcast use vstd::seq_lib::group_to_multiset_ensures;

    if records.len() > 0 {
        let front = records.drop_last();
        let before = by_size(front);
        lemma_by_size_permutes(front);
        lemma_place_bounds(before, records.last().size);
        assert(front.push(records.last()) == records);
    }
}

/// The sorted records descend in size.
pub proof fn lemma_by_size_descends(records: Seq<Entry>)
    ensures
        descending(by_size(records)),
    decreases records.len(),
{
    if records.len() > 0 {
        let before = by_size(records.drop_last());
        let last = records.last();
        let at = place_of(before, last.size);
        lemma_by_size_descends(records.drop_last());
        lemma_place_bounds(before, last.size);
        let after = before.insert(at, last);
        assert forall|i: int, j: int| 0 <= i <= j < after.len() implies after[i].size
            >= after[j].size by {
            if i < at && j > at {
                assert(after[i] == before[i]);
                assert(after[j] == before[j - 1]);
            }
        }
    }
}

/// Records of one size keep their order: the records of `by_size` that
/// have the size `size` are those of the sequence it was made from, in
/// the same order.
pub proof fn lemma_by_size_stable(records: Seq<Entry>, size: nat)
    ensures
        of_size(by_size(records), size) == of_size(records, size),
    decreases records.len(),
{
    let same = |entry: Entry| entry.size == size;
    reveal(Seq::filter);
    if records.len() > 0 {
        let front = records.drop_last();
        let before = by_size(front);
        let last = records.last();
        let at = place_of(before, last.size);
        lemma_by_size_stable(front, size);
        lemma_by_size_descends(front);
        lemma_place_bounds(before, last.size);
        let after = before.insert(at, last);
        let head = before.take(at);
        let tail = before.skip(at);
        assert(before == head + tail);
        assert(after == head.push(last) + tail);
        Seq::filter_distributes_over_add(head, tail, same);
        Seq::filter_distributes_over_add(head.push(last), tail, same);
        assert(head.push(last).drop_last() == head);
        if last.size == size {
            lemma_filter_none(tail, size);
            assert(tail.filter(same) == Seq::<Entry>::empty());
            assert(after.filter(same) == head.filter(same).push(last));
            assert(before.filter(same) == head.filter(same));
        } else {
            assert(head.push(last).filter(same) == head.filter(same));
        }
    }
}

/// Among records that are all smaller than `size`, none has that size.
proof fn lemma_filter_none(records: Seq<Entry>, size: nat)
    requires
        forall|j: int| 0 <= j < records.len() ==> records[j].size < size,
    ensures
        of_size(records, size) == Seq::<Entry>::empty(),
    decreases records.len(),
{
    reveal(Seq::filter);
    if records.len() > 0 {
        lemma_filter_none(records.drop_last(), size);
    }
}

/// The events of the progress are one count, then two for each record.
pub proof fn lemma_progress_shape(count: nat, records: Seq<Entry>)
    ensures
        progress(count, records).len() == 1 + 2 * records.len(),
        progress(count, records)[0] == Event::Count(count),
        forall|i: int|
            0 <= i < records.len() ==> #[trigger] progress(count, records)[1 + 2 * i]
                == Event::Path(records[i]),
        forall|i: int|
            0 <= i < records.len() ==> #[trigger] progress(count, records)[2 + 2 * i]
                == Event::TotalSize(total_size(records.take(i + 1))),
        records_in(progress(count, records)) == records,
    decreases records.len(),
{
    if records.len() > 0 {
        let front = records.drop_last();
        let n = front.len() as int;
        lemma_progress_shape(count, front);
        let all = progress(count, records);
        let before = progress(count, front);
        assert forall|i: int| 0 <= i < records.len() implies #[trigger] all[1 + 2 * i]
            == Event::Path(records[i]) by {
            if i < n {
                assert(all[1 + 2 * i] == before[1 + 2 * i]);
                assert(front[i] == records[i]);
            }
        }
        assert forall|i: int| 0 <= i < records.len() implies #[trigger] all[2 + 2 * i]
            == Event::TotalSize(total_size(records.take(i + 1))) by {
            if i < n {
                assert(all[2 + 2 * i] == before[2 + 2 * i]);
                assert(front.take(i + 1) == records.take(i + 1));
            } else {
                assert(records.take(i + 1) == records);
            }
        }
        assert(all.drop_last().drop_last() == before);
        assert(all.drop_last().last() == Event::Path(records.last()));
        assert(records_in(all.drop_last()) == records_in(before).push(records.last()));
        assert(front.push(records.last()) == records);
    } else {
        assert(records_in(progress(count, records).drop_last()) == Seq::<Entry>::empty());
    }
}

/// The records among the events of a replay are the sorted records.
pub proof fn lemma_replay_records(sorted: Seq<Entry>)
    ensures
        records_in(sorted.map_values(|entry: Entry| Event::Path(entry))) == sorted,
        records_in(seq![Event::Sign] + sorted.map_values(|entry: Entry| Event::Path(entry)))
            == sorted,
    decreases sorted.len(),
{
    let wrap = |entry: Entry| Event::Path(entry);
    let events = sorted.map_values(wrap);
    let marked = seq![Event::Sign] + events;
    if sorted.len() > 0 {
        lemma_replay_records(sorted.drop_last());
        assert(events.drop_last() == sorted.drop_last().map_values(wrap));
        assert(marked.drop_last() == seq![Event::Sign] + sorted.drop_last().map_values(wrap));
        assert(sorted.drop_last().push(sorted.last()) == sorted);
    } else {
        assert(marked.drop_last() == Seq::<Event>::empty());
        assert(records_in(marked.drop_last()) == Seq::<Entry>::empty());
    }
}

/// The count that a scan reports is the number of records it reports
/// before the marker: the first event of a scan that resolved `records`
/// is their count, the marker stands where the progress ends, and the
/// records among the events before it are `records`.
pub proof fn theorem_count_is_number_of_records(records: Seq<Entry>)
    ensures
        stream(records)[0] == Event::Count(records.len()),
        stream(records)[progress(records.len(), records).len() as int] == Event::Sign,
        stream(records).take(progress(records.len(), records).len() as int) == progress(
            records.len(),
            records,
        ),
        records_in(progress(records.len(), records)).len() == records.len(),
        forall|i: int|
            0 <= i < progress(records.len(), records).len() ==> progress(
                records.len(),
                records,
            )[i] != Event::Sign,
{
    let events = progress(records.len(), records);
    lemma_progress_shape(records.len(), records);
    assert forall|i: int| 0 <= i < events.len() implies events[i] != Event::Sign by {
        if i > 0 {
            let k = (i - 1) / 2;
            if i == 1 + 2 * k {
                assert(events[1 + 2 * k] == Event::Path(records[k]));
            } else {
                assert(i == 2 + 2 * k);
                assert(events[2 + 2 * k] == Event::TotalSize(total_size(records.take(k + 1))));
            }
        }
    }
    assert(stream(records).take(events.len() as int) == events);
}

/// The last total that a scan reports is the sum of the sizes of all its
/// records: after the last record, the progress ends with that sum.
pub proof fn theorem_last_total_is_sum(count: nat, records: Seq<Entry>)
    requires
        records.len() > 0,
    ensures
        progress(count, records).last() == Event::TotalSize(total_size(records)),
{
}

/// The records after the marker are the records before it, from the
/// largest to the smallest: each record comes as often after the marker
/// as before it, no record is larger than one that comes before it, and
/// records of one size come in the order they had before the marker.
pub proof fn theorem_replay_is_sorted_permutation(records: Seq<Entry>)
    ensures
        records_in(progress(records.len(), records)) == records,
        records_in(replay(records)) == by_size(records),
        by_size(records).to_multiset() == records.to_multiset(),
        descending(by_size(records)),
        forall|size: nat| #[trigger] of_size(by_size(records), size) == of_size(records, size),
{
    lemma_progress_shape(records.len(), records);
    lemma_replay_records(by_size(records));
    lemma_by_size_permutes(records);
    lemma_by_size_descends(records);
    assert forall|size: nat| #[trigger]
        of_size(by_size(records), size) == of_size(records, size) by {
        lemma_by_size_stable(records, size);
    }
}

impl Record {
    /// The record of a candidate that was resolved to `found` and has the
    /// size `size`.
    pub fn new(found: Resolved, size: CefSize) -> (record: Record)
        ensures
            record@ == entry_of(found@, size@),
    {
        Record { name: found.name, path: found.path, icon: found.icon, size }
    }

    /// A record that holds the same as this one.
    pub fn duplicate(&self) -> (copy: Record)
        ensures
            copy@ == self@,
    {
        Record {
            name: self.name.clone(),
            path: self.path.clone(),
            icon: self.icon.clone(),
            size: self.size,
        }
    }

    /// The event that reports this record.
    pub fn event(&self) -> (event: CefResult)
        ensures
            event@ == Event::Path(self@),
    {
        CefResult::Path {
            name: self.name.clone(),
            path: self.path.clone(),
            icon: self.icon.clone(),
            size: self.size,
        }
    }
}

/// The records from the largest to the smallest: see `by_size`.
pub fn sort_by_size(records: &Vec<Record>) -> (sorted: Vec<Record>)
    ensures
        entries_of(sorted@) == by_size(entries_of(records@)),
{
    let ghost all = entries_of(records@);
    let mut sorted: Vec<Record> = Vec::new();
    let mut i: usize = 0;
    assert(all.take(0) == Seq::<Entry>::empty());
    while i < records.len()
        invariant
            i <= records.len(),
            all == entries_of(records@),
            entries_of(sorted@) == by_size(all.take(i as int)),
        decreases records.len() - i,
    {
        let record = records[i].duplicate();
        let ghost before = entries_of(sorted@);
        proof {
            assert(all.take(i + 1).drop_last() == all.take(i as int));
            assert(all.take(i + 1).last() == record@);
            lemma_by_size_permutes(all.take(i as int));
        }
        let mut at: usize = 0;
        while at < sorted.len() && sorted[at].size.at_least(&record.size)
            invariant
                at <= sorted.len(),
                before == entries_of(sorted@),
                forall|j: int| 0 <= j < at ==> before[j].size >= record@.size,
            decreases sorted.len() - at,
        {
            assert(before[at as int] == sorted@[at as int]@);
            at += 1;
        }
        proof {
            if at < sorted.len() {
                assert(before[at as int] == sorted@[at as int]@);
            }
            lemma_place_of(before, record@.size, at as int);
        }
        sorted.insert(at, record);
        assert(entries_of(sorted@) == before.insert(at as int, record@));
        i += 1;
    }
    assert(all.take(i as int) == all);
    sorted
}

/// Keeps the records and the total of one scan and says which events
/// to report.
#[derive(Debug)]
pub struct Aggregator {
    expected: usize,
    total: u64,
    records: Vec<Record>,
}

impl Aggregator {
    #[verifier::type_invariant]
    spec fn well_formed(&self) -> bool {
        &&& self.records.len() <= self.expected
        &&& self.total == total_size(entries_of(self.records@))
    }

    /// The number of candidates of the scan.
    pub closed spec fn expected(&self) -> nat {
        self.expected as nat
    }

    /// The records that have been completed, in the order in which they
    /// were.
    pub closed spec fn completed(&self) -> Seq<Entry> {
        entries_of(self.records@)
    }

    /// The total that is kept beside the records. It is always the sum of
    /// their sizes, as `total` states.
    pub closed spec fn running_total(&self) -> nat {
        self.total as nat
    }

    /// The events that have been handed out so far.
    pub open spec fn emitted(&self) -> Seq<Event> {
        progress(self.expected(), self.completed())
    }

    /// Starts a scan that found `candidates` candidates. The event
    /// reports their number.
    pub fn new(candidates: usize) -> (r: (Aggregator, CefResult))
        ensures
            r.0.expected() == candidates,
            r.0.completed() == Seq::<Entry>::empty(),
            r.0.running_total() == 0,
            r.1@ == Event::Count(candidates as nat),
            r.0.emitted() == seq![r.1@],
    {
        let aggregator = Aggregator { expected: candidates, total: 0, records: Vec::new() };
        assert(entries_of(aggregator.records@) == Seq::<Entry>::empty());
        (aggregator, CefResult::Count(candidates))
    }

    /// The number of records that have been completed.
    pub fn done(&self) -> (n: usize)
        ensures
            n == self.completed().len(),
            n <= self.expected(),
    {
        proof {
            use_type_invariant(self);
        }
        self.records.len()
    }

    /// The number of candidates of the scan.
    pub fn candidates(&self) -> (n: usize)
        ensures
            n == self.expected(),
    {
        self.expected
    }

    /// The size of all records that have been completed.
    pub fn total(&self) -> (size: CefSize)
        ensures
            size@ == self.running_total(),
            self.running_total() == total_size(self.completed()),
    {
        proof {
            use_type_invariant(self);
        }
        CefSize::from_bytes(self.total)
    }

    /// Takes in the record of one more candidate: it was resolved to
    /// `found` and has the size `size`.
    ///
    /// The two events report the record and then the total size of all
    /// records so far. It is an error if every candidate has its record
    /// already, or if the total is more than a `u64` holds.
    pub fn complete(self, found: Resolved, size: CefSize) -> (r: Result<
        (Aggregator, CefResult, CefResult),
        StreamError,
    >)
        ensures
            r is Ok <==> self.completed().len() < self.expected() && total_size(self.completed())
                + size@ <= u64::MAX,
            r matches Ok((next, record, total)) ==> {
                &&& next.expected() == self.expected()
                &&& next.completed() == self.completed().push(entry_of(found@, size@))
                &&& next.running_total() == total_size(next.completed())
                &&& record@ == Event::Path(entry_of(found@, size@))
                &&& total@ == Event::TotalSize(total_size(next.completed()))
                &&& next.emitted() == self.emitted() + seq![record@, total@]
            },
            r matches Err(e) ==> e == (if self.completed().len() >= self.expected() {
                StreamError::Unexpected
            } else {
                StreamError::Overflow
            }),
    {
        proof {
            use_type_invariant(&self);
        }
        if self.records.len() >= self.expected {
            return Err(StreamError::Unexpected);
        }
        let total = match self.total.checked_add(size.bytes()) {
            Some(total) => total,
            None => {
                return Err(StreamError::Overflow);
            },
        };
        let record = Record::new(found, size);
        let event = record.event();
        let ghost before = entries_of(self.records@);
        let Aggregator { expected, total: _, records } = self;
        let mut records = records;
        records.push(record);
        proof {
            assert(entries_of(records@) == before.push(entry_of(found@, size@)));
            assert(entries_of(records@).drop_last() == before);
        }
        let next = Aggregator { expected, total, records };
        Ok((next, event, CefResult::TotalSize(CefSize::from_bytes(total))))
    }

    /// Ends the scan: the events are the marker and then every record,
    /// from the largest to the smallest. It is an error if a candidate
    /// has no record yet.
    pub fn finish(self) -> (r: Result<Vec<CefResult>, StreamError>)
        ensures
            r is Ok <==> self.completed().len() == self.expected(),
            r matches Ok(events) ==> events_of(events@) == replay(self.completed()),
            r matches Ok(events) ==> self.emitted() + events_of(events@) == stream(
                self.completed(),
            ),
            r matches Err(e) ==> e == StreamError::Incomplete,
    {
        if self.records.len() != self.expected {
            return Err(StreamError::Incomplete);
        }
        let sorted = sort_by_size(&self.records);
        let ghost entries = entries_of(sorted@);
        let mut events: Vec<CefResult> = Vec::new();
        events.push(CefResult::Sign);
        let mut i: usize = 0;
        while i < sorted.len()
            invariant
                i <= sorted.len(),
                entries == entries_of(sorted@),
                events.len() == i + 1,
                events@[0]@ == Event::Sign,
                forall|j: int| 0 <= j < i ==> events@[j + 1]@ == Event::Path(entries[j]),
            decreases sorted.len() - i,
        {
            events.push(sorted[i].event());
            i += 1;
        }
        assert(events_of(events@) == replay(self.completed()));
        Ok(events)
    }
}

} // verus!
