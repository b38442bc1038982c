//! The path index: what it is asked, and how its answer is read.
//!
//! The index is a tool that runs as a process of its own. This module
//! fixes the arguments of each query and turns the bytes that the tool
//! leaves behind into text or into an error. Running the tool is the
//! caller's part.

use vstd::prelude::*;
use vstd::string::StringExecFns;
use crate::error::{IndexError, IndexFault};
use crate::text::texts_of;

verus! {

/// What `encoding_rs::GBK.decode` makes of `bytes`: the text, and whether
/// some of the bytes were malformed. A byte order mark at the start of
/// `bytes` selects UTF-8 or UTF-16 in place of GBK and is not part of the
/// text; each malformed sequence becomes U+FFFD.
pub uninterp spec fn gbk_decoded(bytes: Seq<u8>) -> (Seq<char>, bool);

/// Whether input of `len` bytes is short enough for the decoder to size
/// its output buffer.
pub open spec fn decodable(len: nat) -> bool {
    3 * len + 32 <= isize::MAX
}

/// `Encoding::decode` of `encoding_rs`, called on `GBK`: the text and the
/// flag depend on the bytes alone. The call panics where the size of its
/// output buffer overflows, which `requires` rules out.
#[verifier::external_body]
fn gbk_decode(raw: &Vec<u8>) -> (r: (String, bool))
    requires
        decodable(raw@.len()),
    ensures
        (r.0@, r.1) == gbk_decoded(raw@),
{
    let (text, _, malformed) = encoding_rs::GBK.decode(raw);
    (text.into_owned(), malformed)
}

/// What `decode` makes of `bytes`: the text they stand for in GBK, or
/// `None` where they are malformed or too many.
pub open spec fn decoded(bytes: Seq<u8>) -> Option<Seq<char>> {
    if decodable(bytes.len()) && !gbk_decoded(bytes).1 {
        Some(gbk_decoded(bytes).0)
    } else {
        None
    }
}

/// The verdict on what the decoder returned: the text, unless the decoder
/// met malformed bytes.
pub fn decoded_text(text: String, malformed: bool) -> (r: Result<String, IndexError>)
    ensures
        malformed ==> (r matches Err(e) && e is Decode),
        !malformed ==> (r matches Ok(t) && t@ == text@),
{
    if malformed {
        Err(IndexError::Decode)
    } else {
        Ok(text)
    }
}

/// Reads the bytes that the index tool wrote as text in GBK, the encoding
/// of the tool's locale. Bytes that are no text in it are an error.
pub fn decode(raw: Vec<u8>) -> (r: Result<String, IndexError>)
    ensures
        r is Ok <==> decoded(raw@) is Some,
        r matches Ok(text) ==> decoded(raw@) == Some(text@),
        r matches Err(e) ==> e is Decode,
{
    if raw.len() > (isize::MAX as usize - 32) / 3 {
        return Err(IndexError::Decode);
    }
    let (text, malformed) = gbk_decode(&raw);
    decoded_text(text, malformed)
}

/// What a run of the index tool left behind.
#[derive(Debug, PartialEq, Eq)]
pub struct ToolOutput {
    /// The bytes on its output stream.
    pub stdout: Vec<u8>,
    /// The bytes on its error stream.
    pub stderr: Vec<u8>,
}

/// What `search` makes of a run that left `stdout` and `stderr`.
pub open spec fn answer_of(stdout: Seq<u8>, stderr: Seq<u8>) -> Result<Seq<char>, IndexFault> {
    if stderr.len() > 0 {
        match decoded(stderr) {
            Some(said) => Err(IndexFault::Tool(said)),
            None => Err(IndexFault::Decode),
        }
    } else {
        match decoded(stdout) {
            Some(text) => Ok(text),
            None => Err(IndexFault::Decode),
        }
    }
}

/// Reads the answer of one query.
///
/// `run` is what running the tool gave: what it left behind, or why it
/// could not be started. Anything on the error stream is an error, whatever
/// is on the output stream. Else the answer is the output stream as text.
pub fn search(run: Result<ToolOutput, String>) -> (r: Result<String, IndexError>)
    ensures
        run matches Err(why) ==> (r matches Err(e) && e@ == IndexFault::Process(why@)),
        run matches Ok(out) ==> (match answer_of(out.stdout@, out.stderr@) {
            Ok(text) => (r matches Ok(t) && t@ == text),
            Err(fault) => (r matches Err(e) && e@ == fault),
        }),
{
    match run {
        Err(why) => Err(IndexError::Process(why)),
        Ok(out) => {
            if out.stderr.len() > 0 {
                match decode(out.stderr) {
                    Ok(said) => Err(IndexError::Tool(said)),
                    Err(_) => Err(IndexError::Decode),
                }
            } else {
                match decode(out.stdout) {
                    Ok(text) => Ok(text),
                    Err(_) => Err(IndexError::Decode),
                }
            }
        },
    }
}

/// The name of the index tool's program.
pub open spec fn index_program() -> Seq<char> {
    "es.exe"@
}

/// The arguments that ask for every file whose name holds `_100_` and
/// ends in `.pak`.
pub open spec fn pak_arguments() -> Seq<Seq<char>> {
    seq!["-r"@, "(_100_)(.+?)(\\.pak$)"@]
}

/// The arguments that ask for every file named `libcef.dll`.
pub open spec fn core_library_arguments() -> Seq<Seq<char>> {
    seq!["-r"@, "^libcef.dll$"@]
}

/// The arguments that ask for every file whose name starts with `node`
/// and ends in `.dll`.
pub open spec fn runtime_library_arguments() -> Seq<Seq<char>> {
    seq!["-r"@, "^node(.*?)\\.dll$"@]
}

/// The arguments that ask for the executable files under `path`.
pub open spec fn executable_arguments(path: Seq<char>) -> Seq<Seq<char>> {
    seq!["-p"@, path, "-r"@, "\\.exe$"@]
}

/// The arguments that ask for the files under `path`, directories left
/// out, each with its size in digits without grouping.
pub open spec fn size_arguments(path: Seq<char>) -> Seq<Seq<char>> {
    seq!["-size"@, "-no-digit-grouping"@, "/a-d"@, "-p"@, path]
}

/// The program that the index tool is started as: `index_program`.
pub fn program() -> (name: String)
    ensures
        name@ == index_program(),
{
    String::from_str("es.exe")
}

/// The three queries that a scan starts with, none of which waits for
/// another: `pak_arguments`, `core_library_arguments` and
/// `runtime_library_arguments`, in this order.
pub fn first_queries() -> (queries: Vec<Vec<String>>)
    ensures
        queries@.len() == 3,
        texts_of(queries@[0]@) == pak_arguments(),
        texts_of(queries@[1]@) == core_library_arguments(),
        texts_of(queries@[2]@) == runtime_library_arguments(),
{
    let mut pak: Vec<String> = Vec::new();
    pak.push(String::from_str("-r"));
    pak.push(String::from_str("(_100_)(.+?)(\\.pak$)"));
    let mut core: Vec<String> = Vec::new();
    core.push(String::from_str("-r"));
    core.push(String::from_str("^libcef.dll$"));
    let mut runtime: Vec<String> = Vec::new();
    runtime.push(String::from_str("-r"));
    runtime.push(String::from_str("^node(.*?)\\.dll$"));
    let mut queries: Vec<Vec<String>> = Vec::new();
    assert(texts_of(pak@) == pak_arguments());
    assert(texts_of(core@) == core_library_arguments());
    assert(texts_of(runtime@) == runtime_library_arguments());
    queries.push(pak);
    queries.push(core);
    queries.push(runtime);
    queries
}

/// The query for the executable files under `path`:
/// `executable_arguments`.
pub fn executable_query(path: &str) -> (query: Vec<String>)
    ensures
        texts_of(query@) == executable_arguments(path@),
{
    let mut query: Vec<String> = Vec::new();
    query.push(String::from_str("-p"));
    query.push(String::from_str(path));
    query.push(String::from_str("-r"));
    query.push(String::from_str("\\.exe$"));
    assert(texts_of(query@) == executable_arguments(path@));
    query
}

/// The query for the sizes of the files under `path`: `size_arguments`.
pub fn size_query(path: &str) -> (query: Vec<String>)
    ensures
        texts_of(query@) == size_arguments(path@),
{
    let mut query: Vec<String> = Vec::new();
    query.push(String::from_str("-size"));
    query.push(String::from_str("-no-digit-grouping"));
    query.push(String::from_str("/a-d"));
    query.push(String::from_str("-p"));
    query.push(String::from_str(path));
    assert(texts_of(query@) == size_arguments(path@));
    query
}

} // verus!
