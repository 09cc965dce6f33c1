//! The registry of currently-existing paths, insertion-ordered.
//!
//! The registry mirrors path existence exactly: a path is added when it is
//! created and removed when it is destroyed, and no other component writes
//! it. Its order is the paths' age order, used both for fade styling and to
//! pick the eviction victim once more than the fixed cap exist at once.

use vstd::prelude::*;

verus! {

/// How many paths may exist concurrently before the oldest is evicted.
pub const PATH_CAP: usize = 4;

/// Insertion-ordered list of the path entities that currently exist.
#[derive(Clone, PartialEq, Eq, Debug)]
pub struct LivePaths {
    /// Path entities, oldest first.
    pub ids: Vec<u64>,
}

impl Default for LivePaths {
    /// The registry starts empty.
    fn default() -> (r: LivePaths)
        ensures
            r.ids@.len() == 0,
    {
        LivePaths { ids: Vec::new() }
    }
}

impl LivePaths {
    /// Records a newly created path as the youngest entry.
    pub fn on_path_created(&mut self, id: u64)
        ensures
            final(self).ids@ == old(self).ids@.push(id),
    {
        self.ids.push(id);
    }

    /// Removes every entry for a destroyed path.
    pub fn on_path_destroyed(&mut self, id: u64)
        ensures
            final(self).ids@ == old(self).ids@.filter(|e: u64| e != id),
    {
        let n = self.ids.len();
        let mut kept: Vec<u64> = Vec::new();
        let mut k: usize = 0;
        while k < n
            invariant
                k <= n,
                n == self.ids@.len(),
                kept@ =~= self.ids@.take(k as int).filter(|e: u64| e != id),
            decreases n - k,
        {
            let e = self.ids[k];
            proof {
                reveal(Seq::filter);
                assert(self.ids@.take(k as int + 1).drop_last() =~= self.ids@.take(k as int));
            }
            if e != id {
                kept.push(e);
            }
            k = k + 1;
        }
        proof {
            assert(self.ids@.take(n as int) =~= self.ids@);
        }
        self.ids = kept;
    }

    /// The path to evict: the oldest still-existing path, but only once more
    /// than `PATH_CAP` paths exist concurrently.
    pub fn oldest_over_cap(&self) -> (r: Option<u64>)
        ensures
            r == if self.ids@.len() > PATH_CAP as int {
                Some(self.ids@[0])
            } else {
                None::<u64>
            },
    {
        if self.ids.len() > PATH_CAP {
            Some(self.ids[0])
        } else {
            None
        }
    }

    /// How many paths currently exist.
    pub fn len(&self) -> (r: usize)
        ensures
            r == self.ids@.len(),
    {
        self.ids.len()
    }

    /// The age rank of a path: its index in the registry, oldest first;
    /// `None` when the path is not registered. Rendering fades a path by
    /// this rank.
    pub fn position_of(&self, id: u64) -> (r: Option<usize>)
        ensures
            match r {
                Some(k) => k < self.ids@.len() && self.ids@[k as int] == id && forall|m: int|
                    0 <= m < k ==> self.ids@[m] != id,
                None => forall|m: int| 0 <= m < self.ids@.len() ==> self.ids@[m] != id,
            },
    {
        let n = self.ids.len();
        let mut k: usize = 0;
        while k < n
            invariant
                k <= n,
                n == self.ids@.len(),
                forall|m: int| 0 <= m < k ==> self.ids@[m] != id,
            decreases n - k,
        {
            if self.ids[k] == id {
                return Some(k);
            }
            k = k + 1;
        }
        None
    }

    /// Forgets every path at once, as when the play screen ends or a scatter
    /// event invalidates all in-progress drawings.
    pub fn clear(&mut self)
        ensures
            final(self).ids@.len() == 0,
    {
        self.ids = Vec::new();
    }
}

} // verus!
