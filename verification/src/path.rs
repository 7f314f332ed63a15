//! Paths inside a project, written as the list of their segments so that
//! nothing here depends on the separator of the host system.

use vstd::prelude::*;
use vstd::string::*;

verus! {

/// A path as plain data: its segments, outermost first.
pub type PathModel = Seq<Seq<char>>;

/// A path relative to the root of the project. The empty path is the root.
#[derive(Debug, PartialEq, Eq)]
pub struct RelPath {
    /// The segments, outermost first.
    pub segments: Vec<String>,
}

impl View for RelPath {
    type V = PathModel;

    open spec fn view(&self) -> PathModel {
        self.segments.deep_view()
    }
}

impl DeepView for RelPath {
    type V = PathModel;

    open spec fn deep_view(&self) -> PathModel {
        self.segments.deep_view()
    }
}

impl RelPath {
    /// The root of the project.
    pub fn root() -> (path: RelPath)
        ensures
            path@ == PathModel::empty(),
    {
        let path = RelPath { segments: Vec::new() };
        proof {
            assert(path@ =~= PathModel::empty());
        }
        path
    }

    /// The path of `segment` inside this directory.
    pub fn join(&self, segment: &str) -> (path: RelPath)
        ensures
            path@ == self@.push(segment@),
    {
        let mut path = self.duplicate();
        path.segments.push(segment.to_owned());
        proof {
            assert(path@ =~= self@.push(segment@));
        }
        path
    }

    /// A copy of this path.
    pub fn duplicate(&self) -> (path: RelPath)
        ensures
            path@ == self@,
    {
        let mut segments: Vec<String> = Vec::new();
        let mut i: usize = 0;
        while i < self.segments.len()
            invariant
                i <= self.segments.len(),
                segments.deep_view() == self@.take(i as int),
            decreases self.segments.len() - i,
        {
            let ghost before = segments.deep_view();
            let segment = self.segments[i].clone();
            segments.push(segment);
            proof {
                assert(self@[i as int] == self.segments@[i as int]@);
                assert(segments.deep_view() =~= before.push(segment@));
                assert(self@.take(i + 1) =~= self@.take(i as int).push(self@[i as int]));
            }
            i += 1;
        }
        proof {
            assert(self@.take(self@.len() as int) =~= self@);
        }
        RelPath { segments }
    }

    /// Whether the two paths have the same segments.
    pub fn same_as(&self, other: &RelPath) -> (same: bool)
        ensures
            same == (self@ == other@),
    {
        if self.segments.len() != other.segments.len() {
            return false;
        }
        let mut i: usize = 0;
        while i < self.segments.len()
            invariant
                i <= self.segments.len() == other.segments.len(),
                self@.take(i as int) == other@.take(i as int),
            decreases self.segments.len() - i,
        {
            if self.segments[i] != other.segments[i] {
                proof {
                    assert(self@[i as int] != other@[i as int]);
                }
                return false;
            }
            proof {
                assert(self@[i as int] == other@[i as int]);
                assert(self@.take(i + 1) =~= self@.take(i as int).push(self@[i as int]));
                assert(other@.take(i + 1) =~= other@.take(i as int).push(other@[i as int]));
            }
            i += 1;
        }
        proof {
            assert(self@.take(self@.len() as int) =~= self@);
            assert(other@.take(other@.len() as int) =~= other@);
        }
        true
    }
}

/// Whether `path` is one of `paths`.
pub fn is_listed(paths: &Vec<RelPath>, path: &RelPath) -> (found: bool)
    ensures
        found == paths.deep_view().contains(path@),
{
    let mut i: usize = 0;
    while i < paths.len()
        invariant
            i <= paths.len(),
            !paths.deep_view().take(i as int).contains(path@),
        decreases paths.len() - i,
    {
        if paths[i].same_as(path) {
            proof {
                assert(paths.deep_view()[i as int] == path@);
            }
            return true;
        }
        proof {
            let upto = paths.deep_view().take(i + 1);
            assert forall|j: int| 0 <= j < upto.len() implies upto[j] != path@ by {
                if j < i {
                    assert(paths.deep_view().take(i as int).contains(upto[j]));
                    assert(paths.deep_view().take(i as int)[j] == upto[j]);
                }
            }
        }
        i += 1;
    }
    proof {
        assert(paths.deep_view().take(paths.len() as int) =~= paths.deep_view());
    }
    false
}

} // verus!
