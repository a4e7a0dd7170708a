//! The association of file paths with regions.

use crate::error::StorageError;
use crate::memory::REGION_COUNT;
use vstd::prelude::*;

verus! {

/// One mounted path and the region it stands for.
pub struct MountEntry {
    path: String,
    region: u8,
}

/// The mounted paths, as a map from path to region identifier.
///
/// No path is mounted twice and no two paths stand for the same region. The
/// table is not stored anywhere: after a restart it is rebuilt by issuing the
/// same `mount` calls again.
pub struct MountTable {
    entries: Vec<MountEntry>,
    model: Ghost<Map<Seq<char>, u8>>,
}

/// Whether some mounted path stands for `region`.
pub open spec fn region_in_use(mounts: Map<Seq<char>, u8>, region: u8) -> bool {
    exists|p: Seq<char>| #[trigger] mounts.contains_key(p) && mounts[p] == region
}

/// Whether `path` can be mounted to `region`: either it already is, or neither
/// the path nor the region is taken.
pub open spec fn mount_allowed(mounts: Map<Seq<char>, u8>, path: Seq<char>, region: u8) -> bool {
    if mounts.contains_key(path) {
        mounts[path] == region
    } else {
        !region_in_use(mounts, region)
    }
}

/// Every mounted region exists, and no two paths stand for the same region.
pub open spec fn mounts_valid(mounts: Map<Seq<char>, u8>) -> bool {
    &&& forall|p: Seq<char>| #[trigger] mounts.contains_key(p) ==> mounts[p] < REGION_COUNT
    &&& forall|p: Seq<char>, q: Seq<char>|
        #[trigger] mounts.contains_key(p) && #[trigger] mounts.contains_key(q) && mounts[p]
            == mounts[q] ==> p == q
}

impl View for MountTable {
    type V = Map<Seq<char>, u8>;

    closed spec fn view(&self) -> Map<Seq<char>, u8> {
        self.model@
    }
}

impl MountTable {
    /// The stored entries are exactly the pairs of the map, each stored once.
    pub closed spec fn consistent(&self) -> bool {
        &&& forall|i: int|
            0 <= i < self.entries@.len() ==> {
                &&& self.model@.contains_key(#[trigger] self.entries@[i].path@)
                &&& self.model@[self.entries@[i].path@] == self.entries@[i].region
            }
        &&& forall|p: Seq<char>| #[trigger]
            self.model@.contains_key(p) ==> exists|i: int|
                0 <= i < self.entries@.len() && #[trigger] self.entries@[i].path@ == p
        &&& forall|i: int, j: int|
            0 <= i < j < self.entries@.len() ==> #[trigger] self.entries@[i].path@
                != #[trigger] self.entries@[j].path@
    }

    /// The table stores its map faithfully, and the map is valid.
    pub open spec fn well_formed(&self) -> bool {
        self.consistent() && mounts_valid(self@)
    }

    /// A table with nothing mounted.
    pub fn new() -> (table: MountTable)
        ensures
            table.well_formed(),
            table@ == Map::<Seq<char>, u8>::empty(),
    {
        MountTable { entries: Vec::new(), model: Ghost(Map::empty()) }
    }

    /// The region that `path` is mounted to.
    pub fn resolve(&self, path: &str) -> (r: Result<u8, StorageError>)
        requires
            self.well_formed(),
        ensures
            match r {
                Ok(region) => self@.contains_key(path@) && self@[path@] == region,
                Err(e) => !self@.contains_key(path@) && e == StorageError::FileNotMounted,
            },
    {
        let wanted = path.to_owned();
        let mut i: usize = 0;
        while i < self.entries.len()
            invariant
                self.well_formed(),
                i <= self.entries@.len(),
                wanted@ == path@,
                forall|j: int| 0 <= j < i ==> self.entries@[j].path@ != path@,
            decreases self.entries@.len() - i,
        {
            if self.entries[i].path == wanted {
                assert(self.model@.contains_key(self.entries@[i as int].path@));
                return Ok(self.entries[i].region);
            }
            i = i + 1;
        }
        Err(StorageError::FileNotMounted)
    }

    /// Mounts `path` to region `region_id`. Mounting a path again to the region
    /// it already stands for changes nothing and succeeds. A path that stands
    /// for another region, or a region that another path stands for, is
    /// refused, and then nothing changes.
    pub fn mount(&mut self, path: &str, region_id: u8) -> (mounted: bool)
        requires
            old(self).well_formed(),
            region_id < REGION_COUNT,
        ensures
            final(self).well_formed(),
            mounted == mount_allowed(old(self)@, path@, region_id),
            mounted ==> final(self)@ == old(self)@.insert(path@, region_id),
            !mounted ==> final(self)@ == old(self)@,
    {
        let wanted = path.to_owned();
        let mut i: usize = 0;
        while i < self.entries.len()
            invariant
                self.well_formed(),
                *self == *old(self),
                i <= self.entries@.len(),
                wanted@ == path@,
                forall|j: int|
                    0 <= j < i ==> self.entries@[j].path@ != path@ && self.entries@[j].region
                        != region_id,
            decreases self.entries@.len() - i,
        {
            if self.entries[i].path == wanted {
                assert(self.model@.contains_key(self.entries@[i as int].path@));
                assert(self@.insert(path@, self@[path@]) =~= self@);
                return self.entries[i].region == region_id;
            }
            if self.entries[i].region == region_id {
                proof {
                    let taken = self.entries@[i as int].path@;
                    assert(self.model@.contains_key(taken) && self.model@[taken] == region_id);
                    assert(region_in_use(self@, region_id));
                }
                return false;
            }
            i = i + 1;
        }
        proof {
            assert(!self@.contains_key(path@));
            assert(!region_in_use(self@, region_id)) by {
                if region_in_use(self@, region_id) {
                    let p = choose|p: Seq<char>| #[trigger]
                        self@.contains_key(p) && self@[p] == region_id;
                    let k = choose|k: int|
                        0 <= k < self.entries@.len() && #[trigger] self.entries@[k].path@ == p;
                    assert(self.entries@[k].region == region_id);
                }
            }
        }
        let ghost before = *self;
        self.entries.push(MountEntry { path: wanted, region: region_id });
        self.model = Ghost(self.model@.insert(path@, region_id));
        proof {
            let last = self.entries@.len() - 1;
            assert forall|p: Seq<char>| #[trigger] self.model@.contains_key(p) implies exists|
                k: int,
            |
                0 <= k < self.entries@.len() && #[trigger] self.entries@[k].path@ == p by {
                if p == path@ {
                    assert(self.entries@[last].path@ == p);
                } else {
                    assert(before.model@.contains_key(p));
                    let k = choose|k: int|
                        0 <= k < before.entries@.len() && #[trigger] before.entries@[k].path@
                            == p;
                    assert(self.entries@[k].path@ == p);
                }
            }
            assert forall|k: int| 0 <= k < self.entries@.len() implies {
                &&& self.model@.contains_key(#[trigger] self.entries@[k].path@)
                &&& self.model@[self.entries@[k].path@] == self.entries@[k].region
            } by {
                if k < last {
                    assert(self.entries@[k] == before.entries@[k]);
                    assert(before.model@.contains_key(before.entries@[k].path@));
                }
            }
            assert forall|p: Seq<char>, q: Seq<char>|
                #[trigger] self@.contains_key(p) && #[trigger] self@.contains_key(q) && self@[p]
                    == self@[q] implies p == q by {
                if p != path@ && q != path@ {
                    assert(before@.contains_key(p) && before@.contains_key(q));
                } else if p != path@ {
                    assert(before@.contains_key(p) && before@[p] == region_id);
                } else if q != path@ {
                    assert(before@.contains_key(q) && before@[q] == region_id);
                }
            }
        }
        true
    }

    /// Removes the mount of `path`, and says whether there was one.
    pub fn unmount(&mut self, path: &str) -> (removed: bool)
        requires
            old(self).well_formed(),
        ensures
            final(self).well_formed(),
            removed == old(self)@.contains_key(path@),
            final(self)@ == old(self)@.remove(path@),
    {
        let wanted = path.to_owned();
        let mut i: usize = 0;
        while i < self.entries.len()
            invariant
                self.well_formed(),
                *self == *old(self),
                i <= self.entries@.len(),
                wanted@ == path@,
                forall|j: int| 0 <= j < i ==> self.entries@[j].path@ != path@,
            decreases self.entries@.len() - i,
        {
            if self.entries[i].path == wanted {
                let ghost before = *self;
                assert(before.model@.contains_key(before.entries@[i as int].path@));
                let gone = self.entries.remove(i);
                self.model = Ghost(self.model@.remove(path@));
                proof {
                    assert forall|k: int| 0 <= k < self.entries@.len() implies {
                        &&& self.model@.contains_key(#[trigger] self.entries@[k].path@)
                        &&& self.model@[self.entries@[k].path@] == self.entries@[k].region
                    } by {
                        let from = if k < i { k } else { k + 1 };
                        assert(self.entries@[k] == before.entries@[from]);
                        assert(before.model@.contains_key(before.entries@[from].path@));
                        if k < i {
                            assert(before.entries@[k].path@ != before.entries@[i as int].path@);
                        } else {
                            assert(before.entries@[i as int].path@ != before.entries@[k + 1].path@);
                        }
                    }
                    assert forall|p: Seq<char>| #[trigger]
                        self.model@.contains_key(p) implies exists|k: int|
                        0 <= k < self.entries@.len() && #[trigger] self.entries@[k].path@
                            == p by {
                        assert(before.model@.contains_key(p));
                        let from = choose|k: int|
                            0 <= k < before.entries@.len() && #[trigger] before.entries@[k].path@
                                == p;
                        let k = if from < i { from } else { from - 1 };
                        assert(self.entries@[k] == before.entries@[from]);
                    }
                    assert forall|a: int, b: int| 0 <= a < b < self.entries@.len() implies
                        #[trigger] self.entries@[a].path@ != #[trigger] self.entries@[b].path@ by {
                        let fa = if a < i { a } else { a + 1 };
                        let fb = if b < i { b } else { b + 1 };
                        assert(self.entries@[a] == before.entries@[fa]);
                        assert(self.entries@[b] == before.entries@[fb]);
                        assert(before.entries@[fa].path@ != before.entries@[fb].path@);
                    }
                    assert forall|p: Seq<char>, q: Seq<char>|
                        #[trigger] self@.contains_key(p) && #[trigger] self@.contains_key(q)
                            && self@[p] == self@[q] implies p == q by {
                        assert(before@.contains_key(p) && before@.contains_key(q));
                    }
                }
                return true;
            }
            i = i + 1;
        }
        proof {
            if self@.contains_key(path@) {
                let k = choose|k: int|
                    0 <= k < self.entries@.len() && #[trigger] self.entries@[k].path@ == path@;
                assert(self.entries@[k].path@ != path@);
            }
            assert(self@.remove(path@) =~= self@);
        }
        false
    }
}

} // verus!
