//! Which files are not shared.
use crate::path;
use crate::text;
use vstd::prelude::*;

verus! {

/// Something that a walk through the base directory has found.
pub struct WalkEntry {
    pub path: String,
    pub is_file: bool,
}

/// Whether a walk enters, or reports, something of this name.
pub open spec fn name_is_walked(name: Seq<char>) -> bool {
    name != ".git"@ && name != ".ethersync"@
}

/// Whether a walk enters, or reports, something of this name. Interestingly, the standard filters
/// don't seem to ignore `.git`.
pub fn is_walked(name: &str) -> (r: bool)
    ensures
        r == name_is_walked(name@),
{
    !text::same(name, ".git") && !text::same(name, ".ethersync")
}

/// What is known of an entry of a walk: whether it is a file, and whether its path is the path
/// of the file that is looked for.
pub struct Candidate {
    pub is_file: bool,
    pub is_same_path: bool,
}

/// Whether candidate `i` is the file that is looked for.
pub open spec fn is_match(candidates: Seq<Candidate>, i: int) -> bool {
    0 <= i < candidates.len() && candidates[i].is_file && candidates[i].is_same_path
}

/// Whether a file is ignored, by what is known of the entries of the walk: none of them is the
/// file.
pub fn no_match(candidates: &Vec<Candidate>) -> (r: bool)
    ensures
        r == !(exists|i: int| is_match(candidates@, i)),
        r <==> forall|i: int|
            0 <= i < candidates@.len() ==> !((#[trigger] candidates@[i]).is_file
                && candidates@[i].is_same_path),
{
    let mut i: usize = 0;
    while i < candidates.len()
        invariant
            i <= candidates@.len(),
            forall|j: int| 0 <= j < i ==> !#[trigger] is_match(candidates@, j),
        decreases candidates@.len() - i,
    {
        if candidates[i].is_file && candidates[i].is_same_path {
            assert(is_match(candidates@, i as int));
            return false;
        }
        i = i + 1;
    }
    assert forall|j: int| 0 <= j < candidates@.len() implies !((#[trigger] candidates@[j]).is_file
        && candidates@[j].is_same_path) by {
        assert(!is_match(candidates@, j));
    }
    true
}

/// The candidates are the entries of the walk, in order, with what the platform can say when it
/// compares their paths with this path.
pub open spec fn are_candidates(
    walk: Seq<WalkEntry>,
    absolute_file_path: Seq<char>,
    candidates: Seq<Candidate>,
) -> bool {
    &&& candidates.len() == walk.len()
    &&& forall|i: int|
        0 <= i < walk.len() ==> (#[trigger] candidates[i]).is_file == walk[i].is_file
            && path::compared(walk[i].path@, absolute_file_path, candidates[i].is_same_path)
}

/// Whether entry `i` of the walk is a file at this path.
pub open spec fn finds(walk: Seq<WalkEntry>, absolute_file_path: Seq<char>, i: int) -> bool {
    &&& 0 <= i < walk.len()
    &&& walk[i].is_file
    &&& path::components(walk[i].path@) == path::components(absolute_file_path)
}

/// Whether a file is ignored: the walk through the base directory has not found it.
///
/// To use the same logic for which files are ignored, look through all files of the walk, and try
/// to find this file.
pub fn is_ignored(walk: &Vec<WalkEntry>, absolute_file_path: &str) -> (r: bool)
    ensures
        exists|candidates: Seq<Candidate>|
            {
                &&& #[trigger] are_candidates(walk@, absolute_file_path@, candidates)
                &&& r == !(exists|i: int| is_match(candidates, i))
            },
{
    let mut candidates: Vec<Candidate> = Vec::new();
    let mut i: usize = 0;
    while i < walk.len()
        invariant
            i <= walk@.len(),
            are_candidates(walk@.take(i as int), absolute_file_path@, candidates@),
        decreases walk@.len() - i,
    {
        let is_same_path: bool = path::same_path(walk[i].path.as_str(), absolute_file_path);
        candidates.push(Candidate { is_file: walk[i].is_file, is_same_path });
        i = i + 1;
    }
    assert(walk@.take(i as int) =~= walk@);
    no_match(&candidates)
}

/// A file whose very path is among the files of the walk is not ignored, on any platform. Where
/// the paths are portable, a file is ignored exactly if no file of the walk has the components of
/// its path.
pub proof fn law_ignored(
    walk: Seq<WalkEntry>,
    absolute_file_path: Seq<char>,
    candidates: Seq<Candidate>,
)
    requires
        are_candidates(walk, absolute_file_path, candidates),
    ensures
        (exists|i: int|
            0 <= i < walk.len() && (#[trigger] walk[i]).is_file && walk[i].path@
                == absolute_file_path) ==> exists|i: int| is_match(candidates, i),
        path::is_portable(absolute_file_path) && (forall|i: int|
            0 <= i < walk.len() ==> path::is_portable((#[trigger] walk[i]).path@)) ==> ((exists|
            i: int,
        |
            is_match(candidates, i)) <==> (exists|i: int| finds(walk, absolute_file_path, i))),
{
    assert forall|i: int| 0 <= i < walk.len() implies {
        let same = (#[trigger] candidates[i]).is_same_path;
        &&& walk[i].path@ == absolute_file_path ==> same
        &&& path::is_portable(walk[i].path@) && path::is_portable(absolute_file_path) ==> same == (
        path::components(walk[i].path@) == path::components(absolute_file_path))
    } by {
        path::law_compared(walk[i].path@, absolute_file_path, candidates[i].is_same_path);
    }
    if exists|i: int|
        0 <= i < walk.len() && (#[trigger] walk[i]).is_file && walk[i].path@
            == absolute_file_path {
        let i = choose|i: int|
            0 <= i < walk.len() && (#[trigger] walk[i]).is_file && walk[i].path@
                == absolute_file_path;
        assert(candidates[i].is_same_path);
        assert(is_match(candidates, i));
    }
    if path::is_portable(absolute_file_path) && (forall|i: int|
        0 <= i < walk.len() ==> path::is_portable((#[trigger] walk[i]).path@)) {
        assert forall|i: int|
            is_match(candidates, i) implies #[trigger] finds(walk, absolute_file_path, i) by {
            assert(candidates[i].is_file == walk[i].is_file);
            assert(path::is_portable(walk[i].path@));
        }
        assert forall|i: int|
            finds(walk, absolute_file_path, i) implies #[trigger] is_match(candidates, i) by {
            assert(candidates[i].is_file == walk[i].is_file);
            assert(path::is_portable(walk[i].path@));
        }
        if exists|i: int| is_match(candidates, i) {
            let i = choose|i: int| is_match(candidates, i);
            assert(finds(walk, absolute_file_path, i));
        }
        if exists|i: int| finds(walk, absolute_file_path, i) {
            let i = choose|i: int| finds(walk, absolute_file_path, i);
            assert(is_match(candidates, i));
        }
    }
}

/// Exactly two names are not walked.
pub proof fn law_names_not_walked(name: Seq<char>)
    ensures
        !name_is_walked(name) <==> name == ".git"@ || name == ".ethersync"@,
{
}

/// Every entry of the walk is a candidate, in its place, as it is.
pub proof fn law_candidates(
    walk: Seq<WalkEntry>,
    absolute_file_path: Seq<char>,
    candidates: Seq<Candidate>,
    i: int,
)
    requires
        are_candidates(walk, absolute_file_path, candidates),
        0 <= i < walk.len(),
    ensures
        candidates.len() == walk.len(),
        candidates[i].is_file == walk[i].is_file,
        path::compared(walk[i].path@, absolute_file_path, candidates[i].is_same_path),
{
    let _ = candidates[i];
}

} // verus!
