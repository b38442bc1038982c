//! What can go wrong in a scan, and the text that a failure is reported
//! with.

use vstd::prelude::*;
use vstd::string::StringExecFns;

verus! {

/// A query of the path index failed.
#[derive(Debug, PartialEq, Eq)]
pub enum IndexError {
    /// The index tool could not be started; the text says why.
    Process(String),
    /// The tool's output is not text in the encoding it is read in.
    Decode,
    /// The tool wrote to its error stream; this is what it wrote.
    Tool(String),
}

/// One candidate could not be resolved.
#[derive(Debug, PartialEq, Eq)]
pub enum ResolveError {
    /// The icon of a file could not be extracted; the text says why.
    Icon(String),
    /// A size in the index's listing is no number, or the sizes add up to
    /// more than a `u64` holds.
    Size,
}

/// The event stream was driven out of its order.
#[derive(Debug, Clone, Copy, PartialEq, Eq)]
pub enum StreamError {
    /// A record was completed though every candidate had one already.
    Unexpected,
    /// The running total would exceed what a `u64` holds.
    Overflow,
    /// The sorted replay was asked for before every candidate had a record.
    Incomplete,
}

/// Why a scan ended early.
#[derive(Debug, PartialEq, Eq)]
pub enum ScanError {
    /// One of the queries of the index failed.
    Index(IndexError),
    /// A candidate could not be resolved.
    Resolve(ResolveError),
    /// The consumer of the events is gone; the text says why.
    Channel(String),
    /// The event stream was driven out of its order.
    Stream(StreamError),
    /// The task that resolved a candidate ended without a result; the
    /// text says why.
    Task(String),
}

/// Plain values that stand for an `IndexError` in contracts.
pub enum IndexFault {
    Process(Seq<char>),
    Decode,
    Tool(Seq<char>),
}

/// Plain values that stand for a `ResolveError` in contracts.
pub enum ResolveFault {
    Icon(Seq<char>),
    Size,
}

/// Plain values that stand for a `ScanError` in contracts.
pub enum ScanFault {
    Index(IndexFault),
    Resolve(ResolveFault),
    Channel(Seq<char>),
    Stream(StreamError),
    Task(Seq<char>),
}

impl View for IndexError {
    type V = IndexFault;

    open spec fn view(&self) -> IndexFault {
        match self {
            IndexError::Process(why) => IndexFault::Process(why@),
            IndexError::Decode => IndexFault::Decode,
            IndexError::Tool(said) => IndexFault::Tool(said@),
        }
    }
}

impl View for ResolveError {
    type V = ResolveFault;

    open spec fn view(&self) -> ResolveFault {
        match self {
            ResolveError::Icon(why) => ResolveFault::Icon(why@),
            ResolveError::Size => ResolveFault::Size,
        }
    }
}

impl View for ScanError {
    type V = ScanFault;

    open spec fn view(&self) -> ScanFault {
        match self {
            ScanError::Index(e) => ScanFault::Index(e@),
            ScanError::Resolve(e) => ScanFault::Resolve(e@),
            ScanError::Channel(why) => ScanFault::Channel(why@),
            ScanError::Stream(e) => ScanFault::Stream(*e),
            ScanError::Task(why) => ScanFault::Task(why@),
        }
    }
}

/// The text that an `IndexFault` is reported with.
pub open spec fn index_message(e: IndexFault) -> Seq<char> {
    match e {
        IndexFault::Process(why) => why,
        IndexFault::Decode => "the index returned output that is not valid text"@,
        IndexFault::Tool(said) => said,
    }
}

/// The text that a `ResolveFault` is reported with.
pub open spec fn resolve_message(e: ResolveFault) -> Seq<char> {
    match e {
        ResolveFault::Icon(why) => why,
        ResolveFault::Size => "the index reported a size that is not a number"@,
    }
}

/// The text that a `StreamError` is reported with.
pub open spec fn stream_message(e: StreamError) -> Seq<char> {
    match e {
        StreamError::Unexpected => "a record arrived that no candidate was waiting for"@,
        StreamError::Overflow => "the total size exceeds what can be counted"@,
        StreamError::Incomplete => "the results were asked for before the scan was complete"@,
    }
}

/// The text that a `ScanFault` is reported with.
pub open spec fn scan_message(e: ScanFault) -> Seq<char> {
    match e {
        ScanFault::Index(e) => index_message(e),
        ScanFault::Resolve(e) => resolve_message(e),
        ScanFault::Channel(why) => why,
        ScanFault::Stream(e) => stream_message(e),
        ScanFault::Task(why) => why,
    }
}

impl IndexError {
    /// The text to report this failure with.
    pub fn message(&self) -> (text: String)
        ensures
            text@ == index_message(self@),
    {
        match self {
            IndexError::Process(why) => why.clone(),
            IndexError::Decode => String::from_str(
                "the index returned output that is not valid text",
            ),
            IndexError::Tool(said) => said.clone(),
        }
    }
}

impl ResolveError {
    /// The text to report this failure with.
    pub fn message(&self) -> (text: String)
        ensures
            text@ == resolve_message(self@),
    {
        match self {
            ResolveError::Icon(why) => why.clone(),
            ResolveError::Size => String::from_str(
                "the index reported a size that is not a number",
            ),
        }
    }
}

impl StreamError {
    /// The text to report this failure with.
    pub fn message(&self) -> (text: String)
        ensures
            text@ == stream_message(*self),
    {
        match self {
            StreamError::Unexpected => String::from_str(
                "a record arrived that no candidate was waiting for",
            ),
            StreamError::Overflow => String::from_str("the total size exceeds what can be counted"),
            StreamError::Incomplete => String::from_str(
                "the results were asked for before the scan was complete",
            ),
        }
    }
}

impl ScanError {
    /// The text to report this failure with.
    pub fn message(&self) -> (text: String)
        ensures
            text@ == scan_message(self@),
    {
        match self {
            ScanError::Index(e) => e.message(),
            ScanError::Resolve(e) => e.message(),
            ScanError::Channel(why) => why.clone(),
            ScanError::Stream(e) => e.message(),
            ScanError::Task(why) => why.clone(),
        }
    }
}

/// What the command that started a scan hands back to the user interface:
/// nothing when the scan ran to its end, else the text of the failure.
pub fn start(outcome: Result<(), ScanError>) -> (r: Result<(), String>)
    ensures
        outcome is Ok <==> r is Ok,
        outcome matches Err(e) ==> (r matches Err(text) && text@ == scan_message(e@)),
{
    match outcome {
        Ok(_) => Ok(()),
        Err(e) => Err(e.message()),
    }
}

} // verus!
