//! Filesystem paths as sequences of components.
use vstd::prelude::*;

verus! {

/// A path: whether it starts at the filesystem root, and its named
/// components in order.
pub struct FsPath {
    pub absolute: bool,
    pub parts: Vec<String>,
}

/// What a path denotes: the root flag and the text of each component.
pub type PathView = (bool, Seq<Seq<char>>);

impl View for FsPath {
    type V = PathView;

    open spec fn view(&self) -> PathView {
        (self.absolute, self.parts@.map_values(|s: String| s@))
    }
}

/// The parent of a path: the path without its last component. A path with
/// no component (the root, or the empty relative path) has none.
pub open spec fn parent_spec(p: PathView) -> Option<PathView> {
    if p.1.len() == 0 {
        None
    } else {
        Some((p.0, p.1.drop_last()))
    }
}

impl FsPath {
    /// Builds a path from its root flag and components.
    pub fn new(absolute: bool, parts: Vec<String>) -> (r: FsPath)
        ensures
            r.absolute == absolute,
            r.parts@ == parts@,
    {
        FsPath { absolute, parts }
    }

    /// A copy of the first `n` components of this path.
    pub fn prefix(&self, n: usize) -> (r: FsPath)
        requires
            n <= self.parts.len(),
        ensures
            r@ == (self@.0, self@.1.subrange(0, n as int)),
    {
        let mut parts: Vec<String> = Vec::new();
        let mut i: usize = 0;
        while i < n
            invariant
                i <= n <= self.parts.len(),
                parts.len() == i,
                forall|k: int| 0 <= k < i ==> parts@[k]@ == self.parts@[k]@,
            decreases n - i,
        {
            let part = self.parts[i].clone();
            parts.push(part);
            i = i + 1;
        }
        assert(parts@.map_values(|s: String| s@) =~= self@.1.subrange(0, n as int));
        FsPath { absolute: self.absolute, parts }
    }

    /// A copy of this path.
    pub fn duplicate(&self) -> (r: FsPath)
        ensures
            r@ == self@,
    {
        let r = self.prefix(self.parts.len());
        assert(self@.1.subrange(0, self.parts@.len() as int) =~= self@.1);
        r
    }

    /// The parent directory of this path, if it has one.
    pub fn parent(&self) -> (r: Option<FsPath>)
        ensures
            match r {
                Some(q) => parent_spec(self@) == Some(q@),
                None => parent_spec(self@) is None,
            },
    {
        if self.parts.len() == 0 {
            None
        } else {
            Some(self.prefix(self.parts.len() - 1))
        }
    }

    /// Whether two paths are the same: same root flag, same components.
    pub fn same_as(&self, other: &FsPath) -> (r: bool)
        ensures
            r == (self@ == other@),
    {
        if self.absolute != other.absolute || self.parts.len() != other.parts.len() {
            proof {
                if self.parts.len() != other.parts.len() {
                    assert(self@.1.len() != other@.1.len());
                }
            }
            return false;
        }
        let mut i: usize = 0;
        while i < self.parts.len()
            invariant
                i <= self.parts.len() == other.parts.len(),
                forall|k: int| 0 <= k < i ==> self.parts@[k]@ == other.parts@[k]@,
            decreases self.parts.len() - i,
        {
            if self.parts[i] != other.parts[i] {
                assert(self@.1[i as int] != other@.1[i as int]);
                return false;
            }
            i = i + 1;
        }
        assert(self@.1 =~= other@.1);
        true
    }
}

} // verus!
