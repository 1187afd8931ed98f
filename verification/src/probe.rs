//! Deciding whether a usable file exists at a path.

use crate::files::Files;
use crate::paths::{path_with_extension, with_extension};
use crate::platform::{Platform, PlatformView};
use vstd::prelude::*;

verus! {

/// The first of `candidates` that is a regular file.
pub open spec fn first_regular_file(files: Set<Seq<char>>, candidates: Seq<Seq<char>>) -> Option<
    Seq<char>,
>
    decreases candidates.len(),
{
    if candidates.len() == 0 {
        None
    } else if files.contains(candidates.first()) {
        Some(candidates.first())
    } else {
        first_regular_file(files, candidates.drop_first())
    }
}

/// Whether the candidate at index `k` is a regular file and none before it is.
pub open spec fn first_file_at(files: Set<Seq<char>>, candidates: Seq<Seq<char>>, k: int) -> bool {
    &&& 0 <= k < candidates.len()
    &&& files.contains(candidates[k])
    &&& forall|j: int| 0 <= j < k ==> !files.contains(#[trigger] candidates[j])
}

/// Whether none of `candidates` is a regular file.
pub open spec fn no_file_among(files: Set<Seq<char>>, candidates: Seq<Seq<char>>) -> bool {
    forall|k: int| 0 <= k < candidates.len() ==> !files.contains(#[trigger] candidates[k])
}

/// The paths at which a tool given as `path` may be found: `path` itself,
/// then `path` with the platform's executable extension where there is one.
pub open spec fn probe_candidates(platform: PlatformView, path: Seq<char>) -> Seq<Seq<char>> {
    if platform.exe_extension.len() == 0 {
        seq![path]
    } else {
        seq![path, path_with_extension(path, platform.exe_extension)]
    }
}

/// The usable file that `path` denotes, if any.
pub open spec fn probe(platform: PlatformView, files: Set<Seq<char>>, path: Seq<char>) -> Option<
    Seq<char>,
> {
    first_regular_file(files, probe_candidates(platform, path))
}

/// The candidate chosen is the earliest one that is a regular file.
pub proof fn lemma_first_file_chosen(files: Set<Seq<char>>, candidates: Seq<Seq<char>>, k: int)
    requires
        first_file_at(files, candidates, k),
    ensures
        first_regular_file(files, candidates) == Some(candidates[k]),
    decreases k,
{
    if k > 0 {
        let rest = candidates.drop_first();
        assert(!files.contains(candidates[0]));
        assert forall|j: int| 0 <= j < k - 1 implies !files.contains(#[trigger] rest[j]) by {
            assert(rest[j] == candidates[j + 1]);
        }
        lemma_first_file_chosen(files, rest, k - 1);
    }
}

/// Nothing is chosen exactly when no candidate is a regular file, and what
/// is chosen is a candidate and a regular file.
pub proof fn lemma_first_file_sound(files: Set<Seq<char>>, candidates: Seq<Seq<char>>)
    ensures
        first_regular_file(files, candidates) is None <==> no_file_among(files, candidates),
        first_regular_file(files, candidates) matches Some(found) ==> files.contains(found)
            && candidates.contains(found),
    decreases candidates.len(),
{
    if candidates.len() > 0 {
        let rest = candidates.drop_first();
        lemma_first_file_sound(files, rest);
        if files.contains(candidates.first()) {
            assert(candidates[0] == candidates.first());
        } else {
            if no_file_among(files, rest) {
                assert forall|k: int| 0 <= k < candidates.len() implies !files.contains(
                    #[trigger] candidates[k],
                ) by {
                    if k > 0 {
                        assert(rest[k - 1] == candidates[k]);
                    }
                }
            } else {
                let k: int = choose|k: int|
                    0 <= k < rest.len() && files.contains(#[trigger] rest[k]);
                assert(candidates[k + 1] == rest[k]);
            }
            if let Some(found) = first_regular_file(files, rest) {
                let k: int = choose|k: int| 0 <= k < rest.len() && rest[k] == found;
                assert(candidates[k + 1] == found);
            }
        }
    }
}

/// Choosing from two lists in turn is choosing from the one list that
/// holds the first followed by the second.
pub proof fn lemma_first_file_in_turn(
    files: Set<Seq<char>>,
    first: Seq<Seq<char>>,
    second: Seq<Seq<char>>,
)
    ensures
        first_regular_file(files, first + second) == match first_regular_file(files, first) {
            Some(found) => Some(found),
            None => first_regular_file(files, second),
        },
    decreases first.len(),
{
    if first.len() == 0 {
        assert(first + second =~= second);
    } else {
        assert((first + second).first() == first.first());
        assert((first + second).drop_first() =~= first.drop_first() + second);
        lemma_first_file_in_turn(files, first.drop_first(), second);
    }
}

/// Whether two snapshots agree on each of `candidates`.
pub open spec fn agree_on(
    files: Set<Seq<char>>,
    other: Set<Seq<char>>,
    candidates: Seq<Seq<char>>,
) -> bool {
    forall|k: int|
        0 <= k < candidates.len() ==> (files.contains(#[trigger] candidates[k]) <==> other.contains(
            candidates[k],
        ))
}

/// The choice among candidates depends on the files only through the
/// candidates themselves.
pub proof fn lemma_first_file_local(
    files: Set<Seq<char>>,
    other: Set<Seq<char>>,
    candidates: Seq<Seq<char>>,
)
    requires
        agree_on(files, other, candidates),
    ensures
        first_regular_file(files, candidates) == first_regular_file(other, candidates),
    decreases candidates.len(),
{
    if candidates.len() > 0 {
        let rest = candidates.drop_first();
        assert(candidates[0] == candidates.first());
        assert forall|k: int| 0 <= k < rest.len() implies (files.contains(#[trigger] rest[k])
            <==> other.contains(rest[k])) by {
            assert(rest[k] == candidates[k + 1]);
        }
        lemma_first_file_local(files, other, rest);
    }
}

/// A probe yields only regular files, and yields nothing exactly where
/// neither the path nor the path with the executable extension is one. In
/// particular a path to a directory yields nothing, unless the path with
/// the extension happens to be a regular file.
pub proof fn lemma_probe_sound(platform: PlatformView, files: Set<Seq<char>>, path: Seq<char>)
    ensures
        probe(platform, files, path) matches Some(found) ==> files.contains(found),
        probe(platform, files, path) is None <==> !files.contains(path) && (
        platform.exe_extension.len() == 0 || !files.contains(
            path_with_extension(path, platform.exe_extension),
        )),
{
    reveal_with_fuel(first_regular_file, 3);
    let candidates = probe_candidates(platform, path);
    if platform.exe_extension.len() > 0 {
        assert(candidates.drop_first() =~= seq![path_with_extension(path, platform.exe_extension)]);
    }
}

/// A path that is no regular file, a directory for one, yields nothing,
/// provided that the path with the executable extension is no regular file
/// either.
pub proof fn lemma_probe_rejects_non_files(
    platform: PlatformView,
    files: Set<Seq<char>>,
    path: Seq<char>,
)
    requires
        !files.contains(path),
        platform.exe_extension.len() == 0 || !files.contains(
            path_with_extension(path, platform.exe_extension),
        ),
    ensures
        probe(platform, files, path) is None,
{
    lemma_probe_sound(platform, files, path);
}

/// A path that is a regular file is found as it stands, whatever the
/// platform's executable extension.
pub proof fn lemma_probe_prefers_plain_path(
    platform: PlatformView,
    files: Set<Seq<char>>,
    path: Seq<char>,
)
    requires
        files.contains(path),
    ensures
        probe(platform, files, path) == Some(path),
{
}

/// On a platform with an executable extension, a path that is no regular
/// file, while the path with the extension is one, yields the latter.
pub proof fn lemma_probe_tries_extension(
    platform: PlatformView,
    files: Set<Seq<char>>,
    path: Seq<char>,
)
    requires
        platform.exe_extension.len() > 0,
        !files.contains(path),
        files.contains(path_with_extension(path, platform.exe_extension)),
    ensures
        probe(platform, files, path) == Some(path_with_extension(path, platform.exe_extension)),
{
    reveal_with_fuel(first_regular_file, 3);
    let candidates = probe_candidates(platform, path);
    assert(candidates.drop_first() =~= seq![path_with_extension(path, platform.exe_extension)]);
}

/// Picks the first of `candidates` that is a regular file.
pub fn first_file(files: &Files, candidates: &Vec<String>) -> (found: Option<String>)
    ensures
        found.deep_view() == first_regular_file(files@, candidates.deep_view()),
        found is None <==> no_file_among(files@, candidates.deep_view()),
        found matches Some(path) ==> files@.contains(path@) && candidates.deep_view().contains(
            path@,
        ),
{
    let ghost all = candidates.deep_view();
    let mut i: usize = 0;
    proof {
        assert(all.skip(0) =~= all);
        lemma_first_file_sound(files@, all);
    }
    while i < candidates.len()
        invariant
            i <= candidates@.len(),
            all == candidates.deep_view(),
            first_regular_file(files@, all) == first_regular_file(files@, all.skip(i as int)),
        decreases candidates@.len() - i,
    {
        proof {
            assert(all.skip(i as int).drop_first() =~= all.skip(i + 1));
        }
        if files.is_file(candidates[i].as_str()) {
            return Some(candidates[i].clone());
        }
        i = i + 1;
    }
    None
}

/// Lists where a tool given as `path` may be found, in the order in which
/// the places are tried.
pub fn candidates_for(platform: &Platform, path: String) -> (candidates: Vec<String>)
    ensures
        candidates.deep_view() == probe_candidates(platform@, path@),
{
    let extension = platform.exe_extension();
    let mut candidates: Vec<String> = Vec::new();
    if extension.unicode_len() == 0 {
        candidates.push(path);
    } else {
        let extended = with_extension(path.as_str(), extension);
        candidates.push(path);
        candidates.push(extended);
    }
    assert(candidates.deep_view() =~= probe_candidates(platform@, path@));
    candidates
}

/// Decides whether a usable file exists at `path`, or at `path` with the
/// platform's executable extension, and returns the first of the two that
/// does.
pub fn probe_for_binary(platform: &Platform, files: &Files, path: String) -> (found: Option<String>)
    ensures
        found.deep_view() == probe(platform@, files@, path@),
        found matches Some(file) ==> files@.contains(file@),
{
    let candidates = candidates_for(platform, path);
    first_file(files, &candidates)
}

} // verus!
