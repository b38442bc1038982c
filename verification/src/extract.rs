//! From the hits of the index to the candidate directories.
//!
//! A hit is one line of what the index returned: the path of a file. The
//! directory that holds the file is a candidate, unless the hit lies in a
//! place that is known to be noise. Each candidate is kept once, at the
//! place of the first hit that gave it.

use vstd::prelude::*;
use crate::path::{is_separator, parent_length, parent_of, separator};
use crate::text::{
    chars_of, contains_text, found_at, found_in, lines, lines_of, starts_with, string_of,
    texts_of, views_of,
};

verus! {

/// What marks a hit in the recycle bin, in the first of its two spellings.
pub open spec fn recycle_bin() -> Seq<char> {
    "\\$Recycle.Bin\\"@
}

/// What marks a hit in the recycle bin, in the second of its spellings.
pub open spec fn recycle_bin_upper() -> Seq<char> {
    "\\$RECYCLE.BIN\\"@
}

/// What marks a hit in the directory that is synchronised with the cloud.
pub open spec fn cloud_sync() -> Seq<char> {
    "\\OneDrive\\"@
}

/// The directory that the system is installed in.
pub open spec fn system_root() -> Seq<char> {
    "C:\\Windows"@
}

/// Whether `hit` lies under the directory that the system is installed
/// in: it starts with that directory and a separator. A directory beside
/// it whose name only starts alike, such as `C:\Windows.old`, is not
/// under it, nor is the directory itself.
pub open spec fn under_system_root(hit: Seq<char>) -> bool {
    &&& starts_with(hit, system_root())
    &&& hit.len() > system_root().len()
    &&& is_separator(hit[system_root().len() as int])
}

/// Whether `hit` lies in a place that never holds a candidate: in a
/// recycle bin, in a directory synchronised with the cloud, or under the
/// system's own directory.
pub open spec fn is_noise(hit: Seq<char>) -> bool {
    ||| contains_text(hit, recycle_bin())
    ||| contains_text(hit, recycle_bin_upper())
    ||| contains_text(hit, cloud_sync())
    ||| under_system_root(hit)
}

/// The candidate that `hit` gives: the parent of its path. An empty hit,
/// a hit that is noise and a hit without a parent give none.
pub open spec fn candidate_of(hit: Seq<char>) -> Option<Seq<char>> {
    if hit.len() == 0 || is_noise(hit) {
        None
    } else {
        parent_of(hit)
    }
}

/// The candidates that `hits` give, each once, in the order in which the
/// hits first give them.
pub open spec fn candidates_of(hits: Seq<Seq<char>>) -> Seq<Seq<char>>
    decreases hits.len(),
{
    if hits.len() == 0 {
        Seq::empty()
    } else {
        let before = candidates_of(hits.drop_last());
        match candidate_of(hits.last()) {
            Some(dir) if !before.contains(dir) => before.push(dir),
            _ => before,
        }
    }
}

/// No candidate stands twice among the candidates.
pub proof fn lemma_candidates_distinct(hits: Seq<Seq<char>>)
    ensures
        candidates_of(hits).no_duplicates(),
    decreases hits.len(),
{
    if hits.len() > 0 {
        lemma_candidates_distinct(hits.drop_last());
    }
}

/// A directory is among the candidates exactly if some hit gives it.
pub proof fn lemma_candidates_complete(hits: Seq<Seq<char>>, dir: Seq<char>)
    ensures
        candidates_of(hits).contains(dir) <==> exists|i: int|
            0 <= i < hits.len() && candidate_of(#[trigger] hits[i]) == Some(dir),
    decreases hits.len(),
{
    if hits.len() > 0 {
        let front = hits.drop_last();
        let before = candidates_of(front);
        lemma_candidates_complete(front, dir);
        if candidates_of(hits).contains(dir) {
            if before.contains(dir) {
                let i = choose|i: int|
                    0 <= i < front.len() && candidate_of(#[trigger] front[i]) == Some(dir);
                assert(hits[i] == front[i]);
            } else {
                let k = choose|k: int|
                    0 <= k < candidates_of(hits).len() && candidates_of(hits)[k] == dir;
                assert(k == before.len());
                assert(candidate_of(hits[hits.len() - 1]) == Some(dir));
            }
        }
        if exists|i: int| 0 <= i < hits.len() && candidate_of(#[trigger] hits[i]) == Some(dir) {
            let i = choose|i: int|
                0 <= i < hits.len() && candidate_of(#[trigger] hits[i]) == Some(dir);
            if i < front.len() {
                assert(front[i] == hits[i]);
                assert(before.contains(dir));
                let k = choose|k: int| 0 <= k < before.len() && before[k] == dir;
                assert(candidates_of(hits)[k] == dir);
            } else {
                if before.contains(dir) {
                    let k = choose|k: int| 0 <= k < before.len() && before[k] == dir;
                    assert(candidates_of(hits)[k] == dir);
                } else {
                    assert(candidates_of(hits)[before.len() as int] == dir);
                }
            }
        }
    }
}

/// A hit that is noise gives no candidate: the candidates of `hits` are
/// those of `hits` with every such hit taken out.
pub proof fn theorem_noise_gives_no_candidate(hits: Seq<Seq<char>>)
    ensures
        forall|i: int| 0 <= i < hits.len() && is_noise(hits[i]) ==> candidate_of(hits[i]) is None,
        candidates_of(hits) == candidates_of(hits.filter(|hit: Seq<char>| !is_noise(hit))),
    decreases hits.len(),
{
    reveal(Seq::filter);
    if hits.len() > 0 {
        let keep = |hit: Seq<char>| !is_noise(hit);
        let front = hits.drop_last();
        theorem_noise_gives_no_candidate(front);
        if keep(hits.last()) {
            assert(hits.filter(keep).drop_last() == front.filter(keep));
        }
    }
}

/// Hits in one directory give one candidate: where two hits have the same
/// parent, that parent stands among the candidates at one place and no
/// other.
pub proof fn theorem_same_parent_one_candidate(hits: Seq<Seq<char>>, first: int, second: int)
    requires
        0 <= first < hits.len(),
        0 <= second < hits.len(),
        candidate_of(hits[first]) is Some,
        candidate_of(hits[first]) == candidate_of(hits[second]),
    ensures
        exists|k: int|
            0 <= k < candidates_of(hits).len() && #[trigger] candidates_of(hits)[k]
                == candidate_of(hits[first])->0 && forall|other: int|
                0 <= other < candidates_of(hits).len() && other != k ==> candidates_of(
                    hits,
                )[other] != candidate_of(hits[first])->0,
{
    let dir = candidate_of(hits[first])->0;
    lemma_candidates_complete(hits, dir);
    lemma_candidates_distinct(hits);
    let k = choose|k: int| 0 <= k < candidates_of(hits).len() && candidates_of(hits)[k] == dir;
    assert(candidates_of(hits)[k] == dir);
}

/// The number of candidates is the number of different directories that
/// the hits give.
pub proof fn theorem_candidates_counted_once(hits: Seq<Seq<char>>)
    ensures
        candidates_of(hits).len() == candidates_of(hits).to_set().len(),
        forall|dir: Seq<char>| #[trigger]
            candidates_of(hits).to_set().contains(dir) <==> exists|i: int|
                0 <= i < hits.len() && candidate_of(#[trigger] hits[i]) == Some(dir),
{
    lemma_candidates_distinct(hits);
    candidates_of(hits).unique_seq_to_set();
    assert forall|dir: Seq<char>| #[trigger]
        candidates_of(hits).to_set().contains(dir) <==> exists|i: int|
            0 <= i < hits.len() && candidate_of(#[trigger] hits[i]) == Some(dir) by {
        lemma_candidates_complete(hits, dir);
    }
}

/// Tests `is_noise`.
pub fn noise(hit: &Vec<char>) -> (b: bool)
    ensures
        b == is_noise(hit@),
{
    let bin = chars_of("\\$Recycle.Bin\\");
    let bin_upper = chars_of("\\$RECYCLE.BIN\\");
    let cloud = chars_of("\\OneDrive\\");
    let system = chars_of("C:\\Windows");
    found_in(hit, &bin) || found_in(hit, &bin_upper) || found_in(hit, &cloud) || (found_at(
        hit,
        &system,
        0,
    ) && hit.len() > system.len() && separator(hit[system.len()]))
}

/// Whether `dir` is one of `dirs`.
fn listed(dirs: &Vec<String>, dir: &String) -> (b: bool)
    ensures
        b == texts_of(dirs@).contains(dir@),
{
    let mut k: usize = 0;
    while k < dirs.len()
        invariant
            k <= dirs.len(),
            forall|j: int| 0 <= j < k ==> texts_of(dirs@)[j] != dir@,
        decreases dirs.len() - k,
    {
        if dirs[k] == *dir {
            assert(texts_of(dirs@)[k as int] == dir@);
            return true;
        }
        k += 1;
    }
    false
}

/// The candidate directories among the hits of the index.
///
/// `list` is what the queries returned, one hit a line, the answers of
/// all queries together, so that a directory that several queries hit is
/// still one candidate. See `candidates_of`.
pub fn get_folder(list: &str) -> (dirs: Vec<String>)
    ensures
        texts_of(dirs@) == candidates_of(lines_of(list@)),
        texts_of(dirs@).no_duplicates(),
{
    let hits = lines(list);
    let ghost texts = views_of(hits@);
    let mut dirs: Vec<String> = Vec::new();
    let mut i: usize = 0;
    assert(texts.take(0) == Seq::<Seq<char>>::empty());
    while i < hits.len()
        invariant
            i <= hits.len(),
            texts == views_of(hits@),
            texts == lines_of(list@),
            texts_of(dirs@) == candidates_of(texts.take(i as int)),
        decreases hits.len() - i,
    {
        let hit = &hits[i];
        let ghost before = texts_of(dirs@);
        proof {
            assert(texts.take(i + 1).drop_last() == texts.take(i as int));
            assert(texts.take(i + 1).last() == hit@);
        }
        if hit.len() > 0 && !noise(hit) {
            match parent_length(hit) {
                Some(n) => {
                    let dir = string_of(hit, 0, n);
                    assert(hit@.take(n as int) == hit@.subrange(0, n as int));
                    if !listed(&dirs, &dir) {
                        dirs.push(dir);
                        assert(texts_of(dirs@) == before.push(dir@));
                    }
                },
                None => {},
            }
        }
        i += 1;
    }
    assert(texts.take(i as int) == texts);
    proof {
        lemma_candidates_distinct(texts);
    }
    dirs
}

} // verus!
