//! Finding the file and the icon that stand for one candidate.
//!
//! The index is asked for the executable files under the candidate. The
//! first of them whose icon is not in the table of generic icons stands
//! for the candidate. Where none does, the search climbs to the parent
//! directory and asks again, `MAX_CLIMBS` times at most. A search that
//! ends without an icon gives the candidate itself with the default icon.
//!
//! Asking the index and extracting an icon are the caller's part. The
//! search is a machine: each `Step` says what to ask for next, and the
//! answer to it gives the next `Step`, until the step is `Done`.

use vstd::prelude::*;
use crate::error::{IndexError, ResolveError, ResolveFault, ScanError, ScanFault};
use crate::icons::{base64_standard, encodable, encode_icon, IconTable};
use crate::index::{executable_arguments, executable_query};
use crate::path::{file_name, file_name_of, parent, parent_of};
use crate::text::{chars_of, ends_with, has_ending, lines_of, text_lines, texts_of};

verus! {

/// How often a search climbs to the parent directory, at most.
pub const MAX_CLIMBS: usize = 10;

/// The ending of the path of an executable file.
pub open spec fn executable_ending() -> Seq<char> {
    ".exe"@
}

/// Plain values that stand for a `Listing` in contracts.
pub struct Quest {
    /// The candidate that is resolved.
    pub input: Seq<char>,
    /// The path whose executable files are asked for.
    pub path: Seq<char>,
    /// How often the search has climbed so far.
    pub climbs: nat,
}

/// Plain values that stand for a `Probe` in contracts.
pub struct Trial {
    /// The candidate that is resolved.
    pub input: Seq<char>,
    /// The path whose executable files are examined.
    pub path: Seq<char>,
    /// How often the search has climbed so far.
    pub climbs: nat,
    /// The executable files under `path`, as the index listed them.
    pub exes: Seq<Seq<char>>,
    /// The place in `exes` of the file whose icon is asked for.
    pub next: nat,
}

/// Plain values that stand for a `Resolved` in contracts.
pub struct Finding {
    /// The last component of `path`.
    pub name: Seq<char>,
    /// The file or directory that stands for the candidate.
    pub path: Seq<char>,
    /// Its icon, as Base64 text.
    pub icon: Seq<char>,
}

/// Plain values that stand for a `Step` in contracts.
pub enum Stage {
    Query(Quest),
    Extract(Trial),
    Done(Finding),
}

/// A search that waits for the index to list the executable files under
/// a path.
#[derive(Debug)]
pub struct Listing {
    input: String,
    path: String,
    climbs: usize,
}

/// A search that waits for the icon of one executable file.
#[derive(Debug)]
pub struct Probe {
    input: String,
    path: String,
    climbs: usize,
    exes: Vec<String>,
    next: usize,
}

/// What stands for a candidate: the end of a search.
#[derive(Debug, PartialEq, Eq)]
pub struct Resolved {
    /// The last component of `path`; empty where `path` has none.
    pub name: String,
    /// The file or directory that stands for the candidate.
    pub path: String,
    /// Its icon, as Base64 text.
    pub icon: String,
}

/// Where a search stands.
#[derive(Debug)]
pub enum Step {
    /// Ask the index for the executable files under the listing's path.
    Query(Listing),
    /// Extract the icon of the probe's file, `ICON_SIZE` pixels wide.
    Extract(Probe),
    /// The search is over.
    Done(Resolved),
}

impl View for Listing {
    type V = Quest;

    closed spec fn view(&self) -> Quest {
        Quest { input: self.input@, path: self.path@, climbs: self.climbs as nat }
    }
}

impl View for Probe {
    type V = Trial;

    closed spec fn view(&self) -> Trial {
        Trial {
            input: self.input@,
            path: self.path@,
            climbs: self.climbs as nat,
            exes: texts_of(self.exes@),
            next: self.next as nat,
        }
    }
}

impl View for Resolved {
    type V = Finding;

    open spec fn view(&self) -> Finding {
        Finding { name: self.name@, path: self.path@, icon: self.icon@ }
    }
}

impl View for Step {
    type V = Stage;

    open spec fn view(&self) -> Stage {
        match self {
            Step::Query(listing) => Stage::Query(listing@),
            Step::Extract(probe) => Stage::Extract(probe@),
            Step::Done(resolved) => Stage::Done(resolved@),
        }
    }
}

/// The last component of `path`, or nothing where it has none.
pub open spec fn name_of(path: Seq<char>) -> Seq<char> {
    match file_name_of(path) {
        Some(name) => name,
        None => Seq::empty(),
    }
}

/// What a candidate gets when its search found no icon: itself, with the
/// default icon.
pub open spec fn fallback(table: IconTable, input: Seq<char>) -> Finding {
    Finding { name: name_of(input), path: input, icon: table.default_icon() }
}

/// The end of a search that came to `path` and `icon`: these two, unless
/// the icon is empty; then the fallback.
pub open spec fn finish(
    table: IconTable,
    input: Seq<char>,
    path: Seq<char>,
    icon: Seq<char>,
) -> Finding {
    if icon.len() == 0 {
        fallback(table, input)
    } else {
        Finding { name: name_of(path), path, icon }
    }
}

/// What follows one round of the search. The round came to `found` and
/// `icon`; `found` is `None` where there was no parent to climb to. The
/// search ends where there is nowhere to climb, where `found` is an
/// executable file, and where it has climbed `MAX_CLIMBS` times. Else it
/// asks again, for what is under `found`.
pub open spec fn settle(
    table: IconTable,
    input: Seq<char>,
    climbs: nat,
    found: Option<Seq<char>>,
    icon: Seq<char>,
) -> Stage {
    match found {
        None => Stage::Done(fallback(table, input)),
        Some(path) => if ends_with(path, executable_ending()) || climbs >= MAX_CLIMBS {
            Stage::Done(finish(table, input, path, icon))
        } else {
            Stage::Query(Quest { input, path, climbs: climbs + 1 })
        },
    }
}

/// What follows when the files before `next` have been turned down: the
/// icon of the file at `next` is asked for; where no file is left, the
/// round comes to the parent of `path`, with no icon.
pub open spec fn examine(
    table: IconTable,
    input: Seq<char>,
    path: Seq<char>,
    climbs: nat,
    exes: Seq<Seq<char>>,
    next: nat,
) -> Stage {
    if next < exes.len() {
        Stage::Extract(Trial { input, path, climbs, exes, next })
    } else {
        settle(table, input, climbs, parent_of(path), Seq::empty())
    }
}

/// What follows the index's answer `listing` to `quest`: each line of it
/// is an executable file, and they are examined from the first.
pub open spec fn on_listing(table: IconTable, quest: Quest, listing: Seq<char>) -> Stage {
    examine(table, quest.input, quest.path, quest.climbs, lines_of(listing), 0)
}

/// What follows when the file that `trial` asked about has the icon
/// `icon`: a generic icon turns the file down; any other ends the round
/// with this file and this icon.
pub open spec fn on_icon(table: IconTable, trial: Trial, icon: Seq<char>) -> Stage {
    if table.is_generic(icon) {
        examine(table, trial.input, trial.path, trial.climbs, trial.exes, trial.next + 1)
    } else {
        settle(table, trial.input, trial.climbs, Some(trial.exes[trial.next as int]), icon)
    }
}

/// How many climbs a search at `stage` has left.
pub open spec fn climbs_left(stage: Stage) -> int {
    match stage {
        Stage::Query(quest) => if quest.climbs <= MAX_CLIMBS {
            MAX_CLIMBS - quest.climbs
        } else {
            0
        },
        Stage::Extract(trial) => if trial.climbs <= MAX_CLIMBS {
            MAX_CLIMBS - trial.climbs
        } else {
            0
        },
        Stage::Done(_) => 0,
    }
}

/// How many files a search at `stage` has left to examine in this round;
/// before the index has answered, it counts as more than any number of
/// files.
pub open spec fn files_left(stage: Stage) -> (int, int) {
    match stage {
        Stage::Query(_) => (1, 0),
        Stage::Extract(trial) => (0, trial.exes.len() - trial.next),
        Stage::Done(_) => (0, 0),
    }
}

/// Where a search that stands at `stage` ends, if `index` says what the
/// index lists under each path and `icons` what the icon of each file
/// is. The search ends whatever these two are: it can only climb
/// `MAX_CLIMBS` times, and each round examines the files of one listing.
pub open spec fn outcome(
    table: IconTable,
    stage: Stage,
    index: spec_fn(Seq<char>) -> Seq<char>,
    icons: spec_fn(Seq<char>) -> Seq<char>,
) -> Finding
    decreases climbs_left(stage), files_left(stage).0, files_left(stage).1,
{
    match stage {
        Stage::Done(found) => found,
        Stage::Query(quest) => outcome(
            table,
            on_listing(table, quest, index(quest.path)),
            index,
            icons,
        ),
        Stage::Extract(trial) => if trial.next < trial.exes.len() {
            outcome(
                table,
                on_icon(table, trial, icons(trial.exes[trial.next as int])),
                index,
                icons,
            )
        } else {
            fallback(table, trial.input)
        },
    }
}

/// The directory that is `steps` parents above `path`, if there is one.
pub open spec fn ancestor(path: Seq<char>, steps: nat) -> Option<Seq<char>>
    decreases steps,
{
    if steps == 0 {
        Some(path)
    } else {
        match ancestor(path, (steps - 1) as nat) {
            Some(below) => parent_of(below),
            None => None,
        }
    }
}

/// Whether every file of `exes` has a generic icon.
pub open spec fn all_generic(
    table: IconTable,
    icons: spec_fn(Seq<char>) -> Seq<char>,
    exes: Seq<Seq<char>>,
) -> bool {
    forall|k: int| 0 <= k < exes.len() ==> table.is_generic(icons(#[trigger] exes[k]))
}

/// Whether neither `input` nor any directory up to `MAX_CLIMBS` parents
/// above it holds an executable file with an icon that is not generic.
pub open spec fn nothing_found(
    table: IconTable,
    input: Seq<char>,
    index: spec_fn(Seq<char>) -> Seq<char>,
    icons: spec_fn(Seq<char>) -> Seq<char>,
) -> bool {
    forall|steps: nat|
        steps <= MAX_CLIMBS && (#[trigger] ancestor(input, steps)) is Some ==> all_generic(
            table,
            icons,
            lines_of(index(ancestor(input, steps)->0)),
        )
}

/// Whether `stage` is a stage of the search for `input` in which every
/// round so far ended without an icon.
spec fn climbing(
    stage: Stage,
    table: IconTable,
    input: Seq<char>,
    index: spec_fn(Seq<char>) -> Seq<char>,
) -> bool {
    match stage {
        Stage::Done(found) => found == fallback(table, input),
        Stage::Query(quest) => {
            &&& quest.input == input
            &&& quest.climbs <= MAX_CLIMBS
            &&& ancestor(input, quest.climbs) == Some(quest.path)
        },
        Stage::Extract(trial) => {
            &&& trial.input == input
            &&& trial.climbs <= MAX_CLIMBS
            &&& ancestor(input, trial.climbs) == Some(trial.path)
            &&& trial.exes == lines_of(index(trial.path))
            &&& trial.next < trial.exes.len()
        },
    }
}

proof fn lemma_round_without_icon(
    table: IconTable,
    input: Seq<char>,
    path: Seq<char>,
    climbs: nat,
    exes: Seq<Seq<char>>,
    next: nat,
    index: spec_fn(Seq<char>) -> Seq<char>,
)
    requires
        climbs <= MAX_CLIMBS,
        ancestor(input, climbs) == Some(path),
        exes == lines_of(index(path)),
    ensures
        climbing(examine(table, input, path, climbs, exes, next), table, input, index),
{
    if next >= exes.len() && climbs < MAX_CLIMBS {
        assert(ancestor(input, climbs + 1) == parent_of(path));
    }
}

proof fn lemma_climb_without_icon(
    table: IconTable,
    stage: Stage,
    input: Seq<char>,
    index: spec_fn(Seq<char>) -> Seq<char>,
    icons: spec_fn(Seq<char>) -> Seq<char>,
)
    requires
        nothing_found(table, input, index, icons),
        climbing(stage, table, input, index),
    ensures
        outcome(table, stage, index, icons) == fallback(table, input),
    decreases climbs_left(stage), files_left(stage).0, files_left(stage).1,
{
    match stage {
        Stage::Done(_) => {},
        Stage::Query(quest) => {
            let exes = lines_of(index(quest.path));
            lemma_round_without_icon(table, input, quest.path, quest.climbs, exes, 0, index);
            lemma_climb_without_icon(
                table,
                on_listing(table, quest, index(quest.path)),
                input,
                index,
                icons,
            );
        },
        Stage::Extract(trial) => {
            let exe = trial.exes[trial.next as int];
            assert(ancestor(input, trial.climbs) is Some);
            assert(all_generic(table, icons, trial.exes));
            assert(table.is_generic(icons(exe)));
            lemma_round_without_icon(
                table,
                input,
                trial.path,
                trial.climbs,
                trial.exes,
                trial.next + 1,
                index,
            );
            lemma_climb_without_icon(table, on_icon(table, trial, icons(exe)), input, index, icons);
        },
    }
}

/// A search that finds no icon still ends, and ends in the fallback: if
/// neither the candidate nor any directory up to `MAX_CLIMBS` parents
/// above it holds an executable file with an icon that is not generic,
/// the candidate gets its own path and the default icon.
pub proof fn theorem_fruitless_climb_falls_back(
    table: IconTable,
    input: Seq<char>,
    index: spec_fn(Seq<char>) -> Seq<char>,
    icons: spec_fn(Seq<char>) -> Seq<char>,
)
    requires
        nothing_found(table, input, index, icons),
    ensures
        outcome(table, Stage::Query(Quest { input, path: input, climbs: 0 }), index, icons)
            == fallback(table, input),
{
    lemma_climb_without_icon(
        table,
        Stage::Query(Quest { input, path: input, climbs: 0 }),
        input,
        index,
        icons,
    );
}

/// Every step of a search brings it nearer to its end: it has fewer
/// climbs left, or as many and fewer files to examine.
pub proof fn theorem_search_advances(table: IconTable, stage: Stage, answer: Seq<char>)
    requires
        stage matches Stage::Extract(trial) ==> trial.next < trial.exes.len(),
        !(stage is Done),
    ensures
        ({
            let next = match stage {
                Stage::Query(quest) => on_listing(table, quest, answer),
                Stage::Extract(trial) => on_icon(table, trial, answer),
                Stage::Done(_) => stage,
            };
            ||| climbs_left(next) < climbs_left(stage)
            ||| climbs_left(next) == climbs_left(stage) && files_left(next).0 < files_left(stage).0
            ||| climbs_left(next) == climbs_left(stage) && files_left(next).0 == files_left(
                stage,
            ).0 && files_left(next).1 < files_left(stage).1
            ||| next is Done
        }),
        0 <= climbs_left(stage) <= MAX_CLIMBS,
{
}

/// Computes `name_of`.
pub fn name(path: &str) -> (name: String)
    ensures
        name@ == name_of(path@),
{
    match file_name(path) {
        Some(name) => name,
        None => String::new(),
    }
}

/// Computes `finish`.
fn finished(table: &IconTable, input: String, path: String, icon: String) -> (found: Resolved)
    ensures
        found@ == finish(*table, input@, path@, icon@),
{
    if icon.as_str().is_empty() {
        let name = name(input.as_str());
        Resolved { name, path: input, icon: table.fallback() }
    } else {
        let name = name(path.as_str());
        Resolved { name, path, icon }
    }
}

/// Computes `settle`.
fn settled(
    table: &IconTable,
    input: String,
    climbs: usize,
    found: Option<String>,
    icon: String,
) -> (step: Step)
    requires
        climbs <= MAX_CLIMBS,
    ensures
        step@ == settle(
            *table,
            input@,
            climbs as nat,
            match found {
                Some(path) => Some(path@),
                None => None,
            },
            icon@,
        ),
{
    match found {
        None => Step::Done(finished(table, input, String::new(), String::new())),
        Some(path) => {
            let ending = chars_of(".exe");
            let chars = chars_of(path.as_str());
            if has_ending(&chars, &ending) || climbs >= MAX_CLIMBS {
                Step::Done(finished(table, input, path, icon))
            } else {
                Step::Query(Listing { input, path, climbs: climbs + 1 })
            }
        },
    }
}

/// Computes `examine`.
fn examined(
    table: &IconTable,
    input: String,
    path: String,
    climbs: usize,
    exes: Vec<String>,
    next: usize,
) -> (step: Step)
    requires
        climbs <= MAX_CLIMBS,
    ensures
        step@ == examine(*table, input@, path@, climbs as nat, texts_of(exes@), next as nat),
{
    if next < exes.len() {
        Step::Extract(Probe { input, path, climbs, exes, next })
    } else {
        let above = parent(path.as_str());
        settled(table, input, climbs, above, String::new())
    }
}

impl Listing {
    #[verifier::type_invariant]
    spec fn well_formed(&self) -> bool {
        self.climbs <= MAX_CLIMBS
    }

    /// The start of the search for the candidate `input`.
    pub fn new(input: String) -> (listing: Listing)
        ensures
            listing@ == (Quest { input: input@, path: input@, climbs: 0 }),
    {
        let path = input.clone();
        Listing { input, path, climbs: 0 }
    }

    /// The path whose executable files the index is asked for.
    pub fn path(&self) -> (path: &String)
        ensures
            path@ == self@.path,
    {
        &self.path
    }

    /// The arguments of the query that the index is asked with.
    pub fn arguments(&self) -> (query: Vec<String>)
        ensures
            texts_of(query@) == executable_arguments(self@.path),
    {
        executable_query(self.path.as_str())
    }

    /// The step that follows the index's answer `listing`: see
    /// `on_listing`.
    pub fn answer(self, listing: &str, table: &IconTable) -> (step: Step)
        ensures
            step@ == on_listing(*table, self@, listing@),
    {
        proof {
            use_type_invariant(&self);
        }
        let exes = text_lines(listing);
        let Listing { input, path, climbs } = self;
        examined(table, input, path, climbs, exes, 0)
    }

    /// The step that follows the outcome of the query: a query that
    /// failed ends the search with its failure; an answer is followed as
    /// `answer` says.
    pub fn reply(self, outcome: Result<String, IndexError>, table: &IconTable) -> (r: Result<
        Step,
        ScanError,
    >)
        ensures
            outcome matches Ok(listing) ==> (r matches Ok(step) && step@ == on_listing(
                *table,
                self@,
                listing@,
            )),
            outcome matches Err(e) ==> (r matches Err(f) && f@ == ScanFault::Index(e@)),
    {
        match outcome {
            Ok(listing) => Ok(self.answer(listing.as_str(), table)),
            Err(e) => Err(ScanError::Index(e)),
        }
    }
}

impl Probe {
    #[verifier::type_invariant]
    spec fn well_formed(&self) -> bool {
        self.climbs <= MAX_CLIMBS && self.next < self.exes.len()
    }

    /// The executable file whose icon is asked for.
    pub fn exe(&self) -> (exe: &String)
        ensures
            self@.next < self@.exes.len(),
            exe@ == self@.exes[self@.next as int],
    {
        proof {
            use_type_invariant(self);
        }
        &self.exes[self.next]
    }

    /// The step that follows when the file's icon is `icon`, as Base64
    /// text: see `on_icon`.
    pub fn judge(self, icon: String, table: &IconTable) -> (step: Step)
        ensures
            step@ == on_icon(*table, self@, icon@),
    {
        proof {
            use_type_invariant(&self);
        }
        let Probe { input, path, climbs, exes, next } = self;
        if table.generic(icon.as_str()) {
            examined(table, input, path, climbs, exes, next + 1)
        } else {
            let exe = exes[next].clone();
            settled(table, input, climbs, Some(exe), icon)
        }
    }

    /// The step that follows the attempt to extract the file's icon.
    ///
    /// `icon` holds the bytes of the image, or says why there are none.
    /// Without an image the candidate cannot be resolved. Else the image
    /// is judged by its Base64 text.
    pub fn answer(self, icon: Result<Vec<u8>, String>, table: &IconTable) -> (r: Result<
        Step,
        ResolveError,
    >)
        requires
            icon matches Ok(raw) ==> encodable(raw@.len()),
        ensures
            icon matches Ok(raw) ==> (r matches Ok(step) && step@ == on_icon(
                *table,
                self@,
                base64_standard(raw@),
            )),
            icon matches Err(why) ==> (r matches Err(e) && e@ == ResolveFault::Icon(why@)),
    {
        match icon {
            Ok(raw) => {
                let text = encode_icon(&raw);
                Ok(self.judge(text, table))
            },
            Err(why) => Err(ResolveError::Icon(why)),
        }
    }

    /// As `answer`, with the failure as that of the scan.
    pub fn reply(self, icon: Result<Vec<u8>, String>, table: &IconTable) -> (r: Result<
        Step,
        ScanError,
    >)
        requires
            icon matches Ok(raw) ==> encodable(raw@.len()),
        ensures
            icon matches Ok(raw) ==> (r matches Ok(step) && step@ == on_icon(
                *table,
                self@,
                base64_standard(raw@),
            )),
            icon matches Err(why) ==> (r matches Err(e) && e@ == ScanFault::Resolve(
                ResolveFault::Icon(why@),
            )),
    {
        match self.answer(icon, table) {
            Ok(step) => Ok(step),
            Err(e) => Err(ScanError::Resolve(e)),
        }
    }
}

} // verus!
