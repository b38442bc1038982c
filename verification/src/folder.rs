//! Showing a path in the file manager: what the file manager is started
//! with, and how the outcome is read. Starting it is the caller's part.

use vstd::prelude::*;
use vstd::string::StringExecFns;
use crate::error::{index_message, IndexFault};
use crate::index::{decode, decoded};
use crate::text::texts_of;

verus! {

/// The name of the file manager's program.
pub open spec fn file_manager() -> Seq<char> {
    "explorer"@
}

/// The arguments that make the file manager open with `path` selected.
pub open spec fn select_arguments(path: Seq<char>) -> Seq<Seq<char>> {
    seq!["/select,"@, path]
}

/// What `open_folder` makes of a run of the file manager that left
/// `stderr` on its error stream.
pub open spec fn folder_outcome(stderr: Seq<u8>) -> Result<(), Seq<char>> {
    if stderr.len() == 0 {
        Ok(())
    } else {
        match decoded(stderr) {
            Some(said) => Err(said),
            None => Err(index_message(IndexFault::Decode)),
        }
    }
}

/// The program that the file manager is started as: `file_manager`.
pub fn program() -> (name: String)
    ensures
        name@ == file_manager(),
{
    String::from_str("explorer")
}

/// The arguments to start the file manager with: `select_arguments`.
pub fn arguments(path: &str) -> (args: Vec<String>)
    ensures
        texts_of(args@) == select_arguments(path@),
{
    let mut args: Vec<String> = Vec::new();
    args.push(String::from_str("/select,"));
    args.push(String::from_str(path));
    assert(texts_of(args@) == select_arguments(path@));
    args
}

/// Reads the outcome of showing a path in the file manager.
///
/// `run` is what running the file manager gave: the bytes on its error
/// stream, or why it could not be started. A file manager that did not
/// start is a failure, reported with the reason. Anything on the error
/// stream is a failure, reported with that text.
pub fn open_folder(run: Result<Vec<u8>, String>) -> (r: Result<(), String>)
    ensures
        run matches Err(why) ==> (r matches Err(text) && text@ == why@),
        run matches Ok(stderr) ==> (r is Ok <==> folder_outcome(stderr@) is Ok),
        run matches Ok(stderr) ==> (r matches Err(text) ==> folder_outcome(stderr@) == Err::<
            (),
            Seq<char>,
        >(text@)),
{
    let stderr = match run {
        Ok(stderr) => stderr,
        Err(why) => {
            return Err(why);
        },
    };
    if stderr.len() == 0 {
        return Ok(());
    }
    match decode(stderr) {
        Ok(said) => Err(said),
        Err(e) => Err(e.message()),
    }
}

} // verus!
