//! A snapshot of which paths denote regular files.

use vstd::prelude::*;

verus! {

/// The paths that were found to be regular files at the moment the snapshot
/// was taken. A path that is absent is anything else: missing, a directory,
/// or unreadable.
pub struct Files {
    regular: Vec<String>,
}

impl View for Files {
    type V = Set<Seq<char>>;

    closed spec fn view(&self) -> Set<Seq<char>> {
        Set::new(
            |path: Seq<char>|
                exists|i: int|
                    0 <= i < self.regular@.len() && (#[trigger] self.regular@[i])@ == path,
        )
    }
}

impl Files {
    /// A snapshot in which no path is a regular file.
    pub fn new() -> (files: Files)
        ensures
            files@ == Set::<Seq<char>>::empty(),
    {
        let files = Files { regular: Vec::new() };
        assert(files@ =~= Set::<Seq<char>>::empty());
        files
    }

    /// Records `path` as a regular file.
    pub fn insert(&mut self, path: String)
        ensures
            final(self)@ == old(self)@.insert(path@),
    {
        let ghost before = self.regular@;
        self.regular.push(path);
        proof {
            let after = self.regular@;
            assert forall|p: Seq<char>|
                self@.contains(p) <==> old(self)@.insert(path@).contains(p) by {
                if self@.contains(p) {
                    let i: int = choose|i: int| 0 <= i < after.len() && (#[trigger] after[i])@ == p;
                    if i < before.len() {
                        assert(before[i]@ == p);
                    }
                }
                if old(self)@.contains(p) {
                    let i: int = choose|i: int|
                        0 <= i < before.len() && (#[trigger] before[i])@ == p;
                    assert(after[i]@ == p);
                }
                if p == path@ {
                    assert(after[before.len() as int]@ == p);
                }
            }
            assert(self@ =~= old(self)@.insert(path@));
        }
    }

    /// Whether `path` is a regular file in this snapshot.
    pub fn is_file(&self, path: &str) -> (found: bool)
        ensures
            found == self@.contains(path@),
    {
        let wanted = path.to_owned();
        let mut i: usize = 0;
        while i < self.regular.len()
            invariant
                i <= self.regular@.len(),
                wanted@ == path@,
                forall|j: int| 0 <= j < i ==> (#[trigger] self.regular@[j])@ != path@,
            decreases self.regular@.len() - i,
        {
            if self.regular[i] == wanted {
                return true;
            }
            i = i + 1;
        }
        false
    }
}

} // verus!
