//! Paths as the synchronization core handles them.

use vstd::prelude::*;

verus! {

/// A filesystem path, held as the names that lead to it: the first is the
/// place where the path starts, each further one a step below the one before.
#[derive(Debug, PartialEq, Eq)]
pub struct StorePath {
    /// The names, outermost first.
    pub components: Vec<String>,
}

impl View for StorePath {
    type V = Seq<Seq<char>>;

    open spec fn view(&self) -> Seq<Seq<char>> {
        Seq::new(self.components@.len(), |i: int| self.components@[i]@)
    }
}

impl StorePath {
    /// The path that consists of `start` alone.
    pub fn new(start: &str) -> (path: Self)
        ensures
            path@ == seq![start@],
    {
        let mut components: Vec<String> = Vec::new();
        components.push(start.to_owned());
        let path = StorePath { components };
        assert(path@ =~= seq![start@]);
        path
    }

    /// The path one step below `self`, under the name `segment`.
    pub fn join(&self, segment: &str) -> (path: Self)
        ensures
            path@ == self@.push(segment@),
    {
        let mut components: Vec<String> = Vec::new();
        let count: usize = self.components.len();
        let mut i: usize = 0;
        while i < count
            invariant
                i <= count,
                count == self.components@.len(),
                components@.len() == i,
                forall|k: int| 0 <= k < i ==> components@[k]@ == self.components@[k]@,
            decreases count - i,
        {
            components.push(self.components[i].clone());
            i += 1;
        }
        components.push(segment.to_owned());
        let path = StorePath { components };
        assert(path@ =~= self@.push(segment@));
        path
    }
}

} // verus!
