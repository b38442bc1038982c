//! The course of one scan, from the answers of the first queries to the
//! record of each candidate.

use vstd::prelude::*;
use vstd::string::StringExecFns;
use crate::error::{IndexError, ResolveError, ResolveFault, ScanError, ScanFault};
use crate::extract::{candidates_of, get_folder};
use crate::resolve::Resolved;
use crate::size::{get_size, listed_size, CefSize};
use crate::stream::{entry_of, Aggregator, CefResult, Entry, Event, Record};
use crate::text::{lines_of, texts_of};

verus! {

/// Starts a scan from the answers to the three first queries.
///
/// The answers are read as one text, one after the other, so that a
/// directory that two queries hit is one candidate. The result holds the
/// candidates, the aggregator of the scan and the first event, which
/// reports the number of candidates.
pub fn begin(pak: &str, core: &str, runtime: &str) -> (r: (Vec<String>, Aggregator, CefResult))
    ensures
        texts_of(r.0@) == candidates_of(lines_of(pak@ + core@ + runtime@)),
        texts_of(r.0@).no_duplicates(),
        r.1.expected() == r.0@.len(),
        r.1.completed() == Seq::<Entry>::empty(),
        r.2@ == Event::Count(r.0@.len()),
        r.1.emitted() == seq![r.2@],
{
    let hits = String::from_str(pak).concat(core).concat(runtime);
    let candidates = get_folder(hits.as_str());
    let (aggregator, count) = Aggregator::new(candidates.len());
    (candidates, aggregator, count)
}

/// Starts a scan from the outcomes of the three first queries.
///
/// A query that failed ends the scan before it has a candidate or an
/// event: the failure is that of the first query that failed, in the
/// order of the arguments. Where all three have an answer, the scan
/// begins with them: see `begin`.
pub fn open(
    pak: Result<String, IndexError>,
    core: Result<String, IndexError>,
    runtime: Result<String, IndexError>,
) -> (r: Result<(Vec<String>, Aggregator, CefResult), ScanError>)
    ensures
        match (pak, core, runtime) {
            (Err(e), _, _) => (r matches Err(f) && f@ == ScanFault::Index(e@)),
            (Ok(_), Err(e), _) => (r matches Err(f) && f@ == ScanFault::Index(e@)),
            (Ok(_), Ok(_), Err(e)) => (r matches Err(f) && f@ == ScanFault::Index(e@)),
            (Ok(a), Ok(b), Ok(c)) => {
                &&& r matches Ok(s)
                &&& texts_of(s.0@) == candidates_of(lines_of(a@ + b@ + c@))
                &&& texts_of(s.0@).no_duplicates()
                &&& s.1.expected() == s.0@.len()
                &&& s.1.completed() == Seq::<Entry>::empty()
                &&& s.2@ == Event::Count(s.0@.len())
                &&& s.1.emitted() == seq![s.2@]
            },
        },
{
    let a = match pak {
        Ok(a) => a,
        Err(e) => {
            return Err(ScanError::Index(e));
        },
    };
    let b = match core {
        Ok(b) => b,
        Err(e) => {
            return Err(ScanError::Index(e));
        },
    };
    let c = match runtime {
        Ok(c) => c,
        Err(e) => {
            return Err(ScanError::Index(e));
        },
    };
    Ok(begin(a.as_str(), b.as_str(), c.as_str()))
}

/// Joins the two halves of a candidate's resolution, which do not wait
/// for each other: what stands for it, and its size. Both must have
/// succeeded. Where both failed, the failure of the first is reported.
pub fn join(found: Result<Resolved, ResolveError>, size: Result<CefSize, ResolveError>) -> (r:
    Result<Record, ResolveError>)
    ensures
        match (found, size) {
            (Err(e), _) => (r matches Err(same) && same@ == e@),
            (Ok(_), Err(e)) => (r matches Err(same) && same@ == e@),
            (Ok(f), Ok(s)) => (r matches Ok(record) && record@ == entry_of(f@, s@)),
        },
{
    match found {
        Err(e) => Err(e),
        Ok(f) => match size {
            Err(e) => Err(e),
            Ok(s) => Ok(Record::new(f, s)),
        },
    }
}

/// The record of one candidate, from what its search came to and from the
/// outcome of the query for its sizes.
///
/// A search that failed fails the candidate with its failure. Else a
/// query that failed does, and else a listing whose sizes do not add up:
/// see `listed_size`.
pub fn record(found: Result<Resolved, ScanError>, listing: Result<String, IndexError>) -> (r:
    Result<Record, ScanError>)
    ensures
        match (found, listing) {
            (Err(e), _) => (r matches Err(same) && same@ == e@),
            (Ok(_), Err(e)) => (r matches Err(f) && f@ == ScanFault::Index(e@)),
            (Ok(f), Ok(text)) => match listed_size(text@) {
                Some(size) => (r matches Ok(record) && record@ == entry_of(f@, size as nat)),
                None => (r matches Err(e) && e@ == ScanFault::Resolve(ResolveFault::Size)),
            },
        },
{
    let f = match found {
        Ok(f) => f,
        Err(e) => {
            return Err(e);
        },
    };
    let text = match listing {
        Ok(text) => text,
        Err(e) => {
            return Err(ScanError::Index(e));
        },
    };
    match join(Ok(f), get_size(text.as_str())) {
        Ok(record) => Ok(record),
        Err(e) => Err(ScanError::Resolve(e)),
    }
}

} // verus!
