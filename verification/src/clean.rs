//! Cleaning the output directory: the files that no song of the input
//! names.
use vstd::prelude::*;
use crate::parser::{songs_view, SongDesc, SongSpec};
use crate::text::{chars_equal, chars_of, strings_view};

verus! {

broadcast use vstd::string::group_string_axioms;

/// Some song is called `stem`.
pub open spec fn is_listed(stem: Seq<char>, songs: Seq<SongSpec>) -> bool {
    exists|j: int| 0 <= j < songs.len() && (#[trigger] songs[j]).name == stem
}

/// Whether some song of `songs` is called `stem`.
fn listed(stem: &String, songs: &Vec<SongDesc>) -> (b: bool)
    ensures
        b == is_listed(stem@, songs_view(songs@)),
{
    let s = chars_of(stem.as_str());
    let mut j: usize = 0;
    while j < songs.len()
        invariant
            j <= songs@.len(),
            s@ == stem@,
            forall|k: int| 0 <= k < j ==> (#[trigger] songs_view(songs@)[k]).name != stem@,
        decreases songs@.len() - j,
    {
        let n = chars_of(songs[j].name.as_str());
        if chars_equal(&n, &s) {
            assert(songs_view(songs@)[j as int].name == stem@);
            return true;
        }
        j = j + 1;
    }
    false
}

/// The positions, in increasing order, of the files (by name without
/// extension, `stems`) that no song of `songs` is called; these are the
/// files that cleaning removes.
pub fn unlisted_files(stems: &Vec<String>, songs: &Vec<SongDesc>) -> (r: Vec<usize>)
    ensures
        forall|a: int, b: int| 0 <= a < b < r@.len() ==> r@[a] < r@[b],
        forall|i: int|
            0 <= i < stems@.len() ==> (r@.contains(i as usize) <==> !is_listed(
                #[trigger] strings_view(stems@)[i],
                songs_view(songs@),
            )),
        forall|k: int| 0 <= k < r@.len() ==> r@[k] < stems@.len(),
{
    let mut out: Vec<usize> = Vec::new();
    let mut i: usize = 0;
    while i < stems.len()
        invariant
            i <= stems@.len(),
            forall|a: int, b: int| 0 <= a < b < out@.len() ==> out@[a] < out@[b],
            forall|k: int| 0 <= k < out@.len() ==> out@[k] < i,
            forall|m: int|
                0 <= m < i ==> (out@.contains(m as usize) <==> !is_listed(
                    #[trigger] strings_view(stems@)[m],
                    songs_view(songs@),
                )),
        decreases stems@.len() - i,
    {
        let ghost before = out@;
        if !listed(&stems[i], songs) {
            out.push(i);
            proof {
                assert forall|m: usize| m < i implies (#[trigger] out@.contains(m) == before.contains(m)) by {
                    if out@.contains(m) {
                        let k = choose|k: int| 0 <= k < out@.len() && out@[k] == m;
                        if k < before.len() {
                            assert(before[k] == m);
                        }
                    }
                    if before.contains(m) {
                        let k = choose|k: int| 0 <= k < before.len() && before[k] == m;
                        assert(out@[k] == m);
                    }
                }
                assert(out@[out@.len() - 1] == i);
            }
        } else {
            proof {
                assert(!out@.contains(i)) by {
                    if out@.contains(i) {
                        let k = choose|k: int| 0 <= k < out@.len() && out@[k] == i;
                    }
                }
            }
        }
        i = i + 1;
    }
    out
}

/// The wording of the closing message for `count` removed files.
pub open spec fn deletion_phrase_spec(count: u64) -> Seq<char> {
    if count == 1 {
        " was"@
    } else {
        "s were"@
    }
}

/// The wording of the closing message for `count` removed files:
/// "1 file was deleted", "2 files were deleted".
pub fn deletion_phrase(count: u64) -> (r: &'static str)
    ensures
        r@ == deletion_phrase_spec(count),
{
    if count == 1 {
        " was"
    } else {
        "s were"
    }
}

} // verus!

verus! {

/// The questions asked before a file is removed: whether to remove unlisted
/// files at all (asked once, before the first removal), and whether to
/// remove this file; none when warnings are off.
pub open spec fn deletion_questions_spec(warning: bool, asked_before: bool) -> (bool, bool) {
    if warning {
        (!asked_before, true)
    } else {
        (false, false)
    }
}

/// The questions to ask before removing an unlisted file: `(ask whether to
/// remove unlisted files at all, ask about this file)`.
pub fn deletion_questions(warning: bool, asked_before: bool) -> (r: (bool, bool))
    ensures
        r == deletion_questions_spec(warning, asked_before),
{
    if warning {
        (!asked_before, true)
    } else {
        (false, false)
    }
}

/// What to do about one unlisted file, given the answers so far.
#[derive(Debug, Clone, Copy, PartialEq, Eq, Structural)]
pub enum DeletionVerdict {
    /// Ask whether unlisted files are to be removed at all.
    AskAll,
    /// Ask whether this file is to be removed.
    AskFile,
    /// Remove the file.
    Delete,
    /// Stop: the user refused removing unlisted files, and none was removed.
    AbortNothingDeleted,
    /// Stop: the user refused removing this file.
    AbortFile,
}

/// The verdict on an unlisted file: each question that `deletion_questions`
/// calls for is asked in turn (`all`, `file`: the answers given so far,
/// `true` for yes); a no ends the cleaning, and the file is removed only
/// once every question asked has been answered yes.
pub open spec fn deletion_verdict_spec(
    warning: bool,
    asked_before: bool,
    all: Option<bool>,
    file: Option<bool>,
) -> DeletionVerdict {
    let (ask_all, ask_file) = deletion_questions_spec(warning, asked_before);
    if ask_all && all is None {
        DeletionVerdict::AskAll
    } else if ask_all && all == Some(false) {
        DeletionVerdict::AbortNothingDeleted
    } else if ask_file && file is None {
        DeletionVerdict::AskFile
    } else if ask_file && file == Some(false) {
        DeletionVerdict::AbortFile
    } else {
        DeletionVerdict::Delete
    }
}

/// What to do about an unlisted file, given whether warnings are on, whether
/// the question about all files was asked before, and the answers so far.
pub fn deletion_verdict(
    warning: bool,
    asked_before: bool,
    all: Option<bool>,
    file: Option<bool>,
) -> (r: DeletionVerdict)
    ensures
        r == deletion_verdict_spec(warning, asked_before, all, file),
{
    let (ask_all, ask_file) = deletion_questions(warning, asked_before);
    if ask_all && all.is_none() {
        DeletionVerdict::AskAll
    } else if ask_all && all == Some(false) {
        DeletionVerdict::AbortNothingDeleted
    } else if ask_file && file.is_none() {
        DeletionVerdict::AskFile
    } else if ask_file && file == Some(false) {
        DeletionVerdict::AbortFile
    } else {
        DeletionVerdict::Delete
    }
}

/// A file is removed only when every question asked about it was answered
/// yes; with warnings off, it is removed without a question.
pub proof fn lemma_delete_only_when_confirmed(
    warning: bool,
    asked_before: bool,
    all: Option<bool>,
    file: Option<bool>,
)
    ensures
        deletion_verdict_spec(warning, asked_before, all, file) == DeletionVerdict::Delete ==> (
        warning ==> file == Some(true) && (!asked_before ==> all == Some(true))),
        !warning ==> deletion_verdict_spec(warning, asked_before, all, file)
            == DeletionVerdict::Delete,
{
}

} // verus!
