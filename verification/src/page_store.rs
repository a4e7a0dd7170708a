//! Byte-addressed reads and writes on regions that grow by whole pages.

use crate::error::StorageError;
use crate::memory::memory_grow;
use crate::memory::memory_new;
use crate::memory::memory_read;
use crate::memory::memory_reload;
use crate::memory::memory_regions;
use crate::memory::memory_size;
use crate::memory::memory_write;
use crate::memory::StableMemory;
use crate::memory::buckets_below;
use crate::memory::buckets_for;
use crate::memory::grown;
use crate::memory::zeros;
use crate::memory::BUCKET_PAGES;
use crate::memory::PAGE_BYTES;
use crate::memory::REGION_COUNT;
use vstd::prelude::*;

verus! {

/// The largest hard upper bound a region can be given, in pages. With every
/// region held to it, the memory manager never refuses to grow one.
pub const MAX_REGION_PAGES: u64 = 16384;

/// A handle to one region. Handles to the same identifier address the same bytes.
#[derive(Debug, Clone, Copy, PartialEq, Eq)]
pub struct MemoryRegion {
    id: u8,
}

impl MemoryRegion {
    /// The identifier of the region.
    pub closed spec fn id(&self) -> u8 {
        self.id
    }

    /// A handle addresses one of the regions that the memory manager offers.
    pub open spec fn well_formed(&self) -> bool {
        self.id() < REGION_COUNT
    }

    /// The handle to region `id`.
    pub(crate) fn new(id: u8) -> (region: MemoryRegion)
        requires
            id < REGION_COUNT,
        ensures
            region.id() == id,
            region.well_formed(),
    {
        MemoryRegion { id }
    }

    /// The identifier of the region.
    pub fn region_id(&self) -> (id: u8)
        ensures
            id == self.id(),
    {
        self.id
    }
}

/// The smallest multiple of the page size that is at least `end`.
pub open spec fn page_ceiling(end: nat) -> nat {
    (((end + PAGE_BYTES - 1) / PAGE_BYTES as int) * PAGE_BYTES) as nat
}

/// What a read of `len` bytes at `offset` returns from a region holding `bytes`:
/// the bytes there, and zero where the region has not grown yet.
pub open spec fn read_result(bytes: Seq<u8>, offset: nat, len: nat) -> Seq<u8> {
    Seq::new(
        len,
        |i: int|
            if offset + i < bytes.len() {
                bytes[offset + i]
            } else {
                0u8
            },
    )
}

/// Length of a region of `len` bytes after a write that ends at `end`: unchanged
/// where the write fits, else `end` rounded up to whole pages.
pub open spec fn grown_len(len: nat, end: nat) -> nat {
    if end <= len {
        len
    } else {
        page_ceiling(end)
    }
}

/// What a region holding `bytes` holds after `data` is written at `offset`: the
/// region grown to whole pages as far as the write reaches, `data` in its place,
/// zero in what growth added, and the old bytes elsewhere.
pub open spec fn write_result(bytes: Seq<u8>, offset: nat, data: Seq<u8>) -> Seq<u8> {
    Seq::new(
        grown_len(bytes.len(), offset + data.len()),
        |i: int|
            if offset <= i < offset + data.len() {
                data[i - offset]
            } else if i < bytes.len() {
                bytes[i]
            } else {
                0u8
            },
    )
}

/// The regions after `data` has been written at `offset` of region `id`.
pub open spec fn after_write(regions: Map<u8, Seq<u8>>, id: u8, offset: nat, data: Seq<u8>) -> Map<
    u8,
    Seq<u8>,
> {
    regions.insert(id, write_result(regions[id], offset, data))
}

/// The page ceiling of `end` is the least multiple of the page size at or
/// above `end`: it is a multiple, it lies less than a page above `end`, and it
/// stays within every whole number of pages that `end` stays within.
pub proof fn lemma_page_ceiling(end: nat, pages: nat)
    ensures
        page_ceiling(end) >= end,
        page_ceiling(end) < end + PAGE_BYTES,
        page_ceiling(end) % PAGE_BYTES as nat == 0,
        page_ceiling(end) == ((end + PAGE_BYTES - 1) / PAGE_BYTES as int) * PAGE_BYTES,
        end <= pages * PAGE_BYTES ==> (end + PAGE_BYTES - 1) / PAGE_BYTES as int <= pages,
        end > pages * PAGE_BYTES ==> (end + PAGE_BYTES - 1) / PAGE_BYTES as int > pages,
{
    let q = (end + PAGE_BYTES - 1) / PAGE_BYTES as int;
    assert(q * 65536 <= end + 65535 < q * 65536 + 65536);
    assert((q * 65536) % 65536 == 0) by (nonlinear_arith);
    if end <= pages * PAGE_BYTES {
        assert(q <= pages) by (nonlinear_arith)
            requires
                q * 65536 <= end + 65535,
                end <= pages * 65536,
        ;
    } else {
        assert(q > pages) by (nonlinear_arith)
            requires
                end + 65535 < q * 65536 + 65536,
                end > pages * 65536,
        ;
    }
}

/// Regions that each stay within `MAX_REGION_PAGES` occupy at most
/// `BUCKET_PAGES` buckets each.
pub proof fn lemma_buckets_bounded(regions: Map<u8, Seq<u8>>, n: nat)
    requires
        n <= REGION_COUNT,
        forall|id: u8| id < REGION_COUNT ==> (#[trigger] regions[id]).len() <= MAX_REGION_PAGES * PAGE_BYTES,
    ensures
        buckets_below(regions, n) <= n * 128,
    decreases n,
{
    if n > 0 {
        lemma_buckets_bounded(regions, (n - 1) as nat);
        let id = (n - 1) as u8;
        assert(regions[id].len() <= 16384 * 65536);
        assert(BUCKET_PAGES * PAGE_BYTES == 8388608);
        assert(buckets_for(regions[id].len()) <= 128);
    }
}

/// The regions of a memory in which nothing has grown yet: every region that
/// there is, empty.
pub open spec fn empty_regions() -> Map<u8, Seq<u8>> {
    Map::new(|id: u8| id < REGION_COUNT, |id: u8| Seq::<u8>::empty())
}

/// The bounds of a store in which every region is held to `page_limit` pages.
pub open spec fn uniform_limits(page_limit: u64) -> Seq<u64> {
    Seq::new(REGION_COUNT as nat, |i: int| page_limit)
}

/// The regions of one stable memory, each with a hard upper bound of its own.
pub struct PageStore {
    memory: StableMemory,
    limits: Vec<u64>,
}

impl PageStore {
    /// The bytes of every region, by region identifier.
    pub closed spec fn regions(&self) -> Map<u8, Seq<u8>> {
        Map::new(|id: u8| id < REGION_COUNT, |id: u8| memory_regions(self.memory)[id])
    }

    /// The hard upper bound of every region, in pages, by region identifier.
    pub closed spec fn limits(&self) -> Seq<u64> {
        self.limits@
    }

    /// The bytes of region `id`; their number is the region's capacity.
    pub open spec fn bytes(&self, id: u8) -> Seq<u8> {
        self.regions()[id]
    }

    /// The hard upper bound of region `id`, in pages.
    pub open spec fn page_limit(&self, id: u8) -> u64 {
        self.limits()[id as int]
    }

    /// The hard upper bound of region `id`, in bytes.
    pub open spec fn limit_bytes(&self, id: u8) -> nat {
        (self.page_limit(id) * PAGE_BYTES) as nat
    }

    /// Every region holds whole pages and stays within its hard upper bound,
    /// which is at most `MAX_REGION_PAGES`.
    pub open spec fn well_formed(&self) -> bool {
        &&& self.limits().len() == REGION_COUNT
        &&& self.regions().dom() == empty_regions().dom()
        &&& forall|id: u8|
            id < REGION_COUNT ==> {
                &&& (#[trigger] self.bytes(id)).len() % PAGE_BYTES as nat == 0
                &&& self.bytes(id).len() <= self.limit_bytes(id)
                &&& self.page_limit(id) <= MAX_REGION_PAGES
            }
    }

    /// A store over a fresh memory in which every region is empty and may grow
    /// to `page_limit` pages. A bound above `MAX_REGION_PAGES` is refused.
    pub fn new(page_limit: u64) -> (r: Result<PageStore, StorageError>)
        ensures
            match r {
                Ok(store) => {
                    &&& page_limit <= MAX_REGION_PAGES
                    &&& store.well_formed()
                    &&& store.limits() == uniform_limits(page_limit)
                    &&& store.regions() == empty_regions()
                },
                Err(e) => page_limit > MAX_REGION_PAGES && e == StorageError::RegionCapacityExceeded,
            },
    {
        if page_limit > MAX_REGION_PAGES {
            return Err(StorageError::RegionCapacityExceeded);
        }
        let mut limits: Vec<u64> = Vec::new();
        let mut id: u8 = 0;
        while id < REGION_COUNT
            invariant
                id <= REGION_COUNT,
                limits@.len() == id,
                forall|i: int| 0 <= i < id ==> limits@[i] == page_limit,
            decreases REGION_COUNT - id,
        {
            limits.push(page_limit);
            id = id + 1;
        }
        let memory = memory_new();
        let store = PageStore { memory, limits };
        proof {
            assert forall|id: u8| id < REGION_COUNT implies #[trigger] store.regions()[id]
                =~= Seq::<u8>::empty() by {
                assert(memory_regions(store.memory)[id].len() == 0);
            }
            assert(store.regions() =~= empty_regions());
            assert(store.limits() =~= uniform_limits(page_limit));
        }
        Ok(store)
    }

    /// The store as it is found again after a restart: the memory manager is
    /// set up anew on the same memory, and every region holds what it held
    /// and keeps its bound.
    pub fn reload(self) -> (store: PageStore)
        requires
            self.well_formed(),
        ensures
            store.well_formed(),
            store.regions() == self.regions(),
            store.limits() == self.limits(),
    {
        let limits = self.limits;
        let memory = memory_reload(self.memory);
        let store = PageStore { memory, limits };
        proof {
            assert(store.regions() =~= self.regions());
            assert forall|id: u8| id < REGION_COUNT implies {
                &&& (#[trigger] store.bytes(id)).len() % PAGE_BYTES as nat == 0
                &&& store.bytes(id).len() <= store.limit_bytes(id)
                &&& store.page_limit(id) <= MAX_REGION_PAGES
            } by {
                assert(store.bytes(id) == self.bytes(id));
            }
        }
        store
    }

    /// The hard upper bound of a region, in pages.
    pub fn limit_pages(&self, region: &MemoryRegion) -> (pages: u64)
        requires
            self.well_formed(),
            region.well_formed(),
        ensures
            pages == self.page_limit(region.id()),
            pages <= MAX_REGION_PAGES,
    {
        assert(self.bytes(region.id()).len() <= self.limit_bytes(region.id()));
        self.limits[region.id as usize]
    }

    /// Sets the hard upper bound of a region to `pages` pages. A bound above
    /// `MAX_REGION_PAGES`, or below what the region has already grown to, is
    /// refused, and then nothing changes.
    pub fn set_limit(&mut self, region: &MemoryRegion, pages: u64) -> (r: Result<(), StorageError>)
        requires
            old(self).well_formed(),
            region.well_formed(),
        ensures
            final(self).well_formed(),
            final(self).regions() == old(self).regions(),
            match r {
                Ok(()) => {
                    &&& pages <= MAX_REGION_PAGES
                    &&& old(self).bytes(region.id()).len() <= pages * PAGE_BYTES
                    &&& final(self).limits() == old(self).limits().update(region.id() as int, pages)
                },
                Err(e) => {
                    &&& pages > MAX_REGION_PAGES || old(self).bytes(region.id()).len() > pages
                        * PAGE_BYTES
                    &&& e == StorageError::RegionCapacityExceeded
                    &&& *final(self) == *old(self)
                },
            },
    {
        let held: u64 = self.capacity_pages(region);
        if pages > MAX_REGION_PAGES || held > pages {
            assert(held > pages ==> held * 65536 > pages * 65536) by (nonlinear_arith);
            return Err(StorageError::RegionCapacityExceeded);
        }
        assert(held * 65536 <= pages * 65536) by (nonlinear_arith)
            requires
                held <= pages,
        ;
        let ghost before = *self;
        self.limits.set(region.id as usize, pages);
        proof {
            assert(self.regions() =~= before.regions());
            assert forall|id: u8| id < REGION_COUNT implies {
                &&& (#[trigger] self.bytes(id)).len() % PAGE_BYTES as nat == 0
                &&& self.bytes(id).len() <= self.limit_bytes(id)
                &&& self.page_limit(id) <= MAX_REGION_PAGES
            } by {
                assert(before.bytes(id).len() <= before.limit_bytes(id));
            }
        }
        Ok(())
    }

    /// The capacity of a region in pages.
    pub fn capacity_pages(&self, region: &MemoryRegion) -> (pages: u64)
        requires
            self.well_formed(),
            region.well_formed(),
        ensures
            pages * PAGE_BYTES == self.bytes(region.id()).len(),
            pages <= self.page_limit(region.id()),
    {
        let pages = memory_size(&self.memory, region.id);
        assert(self.bytes(region.id()).len() <= self.limit_bytes(region.id()));
        assert(pages <= self.page_limit(region.id())) by (nonlinear_arith)
            requires
                pages * 65536 <= self.page_limit(region.id()) * 65536,
        ;
        pages
    }

    /// Reads `length` bytes at `offset` of a region, without growing it. Bytes
    /// beyond the region's capacity read as zero. A range that ends beyond the
    /// region's hard upper bound is refused.
    pub fn read(&self, region: &MemoryRegion, offset: u64, length: usize) -> (r: Result<
        Vec<u8>,
        StorageError,
    >)
        requires
            self.well_formed(),
            region.well_formed(),
        ensures
            match r {
                Ok(bytes) => {
                    &&& offset + length <= self.limit_bytes(region.id())
                    &&& bytes@ == read_result(self.bytes(region.id()), offset as nat, length as nat)
                },
                Err(e) => {
                    &&& offset + length > self.limit_bytes(region.id())
                    &&& e == StorageError::RegionCapacityExceeded
                },
            },
    {
        let limit: u64 = self.limit_pages(region) * PAGE_BYTES;
        if offset > limit || length as u64 > limit - offset {
            return Err(StorageError::RegionCapacityExceeded);
        }
        let capacity: u64 = self.capacity_pages(region) * PAGE_BYTES;
        let stored: usize = if offset >= capacity {
            0
        } else if length as u64 <= capacity - offset {
            length
        } else {
            (capacity - offset) as usize
        };
        let start: u64 = if offset >= capacity {
            capacity
        } else {
            offset
        };
        let mut bytes = memory_read(&self.memory, region.id, start, stored);
        let ghost held = bytes@;
        bytes.resize(length, 0u8);
        assert forall|i: int| 0 <= i < length implies bytes@[i] == read_result(
            self.bytes(region.id()),
            offset as nat,
            length as nat,
        )[i] by {
            if i < stored {
                assert(bytes@.subrange(0, stored as int)[i] == held[i]);
            } else {
                assert(cloned::<u8>(0u8, bytes@[i]));
            }
        }
        assert(bytes@ =~= read_result(self.bytes(region.id()), offset as nat, length as nat));
        Ok(bytes)
    }

    /// Grows a region by `pages` zeroed pages and returns its capacity in pages
    /// before the call. Growth beyond the region's hard upper bound is refused,
    /// and then nothing changes.
    pub fn grow(&mut self, region: &MemoryRegion, pages: u64) -> (r: Result<u64, StorageError>)
        requires
            old(self).well_formed(),
            region.well_formed(),
        ensures
            final(self).well_formed(),
            final(self).limits() == old(self).limits(),
            match r {
                Ok(previous) => {
                    &&& old(self).bytes(region.id()).len() + pages * PAGE_BYTES <= old(
                        self,
                    ).limit_bytes(region.id())
                    &&& previous * PAGE_BYTES == old(self).bytes(region.id()).len()
                    &&& final(self).regions() == grown(
                        old(self).regions(),
                        region.id(),
                        pages as nat,
                    )
                },
                Err(e) => {
                    &&& old(self).bytes(region.id()).len() + pages * PAGE_BYTES > old(
                        self,
                    ).limit_bytes(region.id())
                    &&& e == StorageError::RegionCapacityExceeded
                    &&& *final(self) == *old(self)
                },
            },
    {
        let held: u64 = self.capacity_pages(region);
        let limit: u64 = self.limit_pages(region);
        if pages > limit - held {
            assert(held * 65536 + pages * 65536 > limit * 65536) by (nonlinear_arith)
                requires
                    pages > limit - held,
            ;
            return Err(StorageError::RegionCapacityExceeded);
        }
        assert(held * 65536 + pages * 65536 <= limit * 65536 <= 16384 * 65536)
            by (nonlinear_arith)
            requires
                pages <= limit - held,
                limit <= 16384,
        ;
        proof {
            let after = grown(memory_regions(self.memory), region.id(), pages as nat);
            assert forall|id: u8| id < REGION_COUNT implies (#[trigger] after[id]).len()
                <= MAX_REGION_PAGES * PAGE_BYTES by {
                assert(self.bytes(id).len() <= self.limit_bytes(id));
                assert(self.page_limit(id) * 65536 <= 16384 * 65536) by (nonlinear_arith)
                    requires
                        self.page_limit(id) <= 16384,
                ;
            }
            lemma_buckets_bounded(after, REGION_COUNT as nat);
        }
        let ghost before = *self;
        memory_grow(&mut self.memory, region.id, pages);
        proof {
            assert(self.regions() =~= grown(before.regions(), region.id(), pages as nat));
            assert forall|id: u8| id < REGION_COUNT implies {
                &&& (#[trigger] self.bytes(id)).len() % PAGE_BYTES as nat == 0
                &&& self.bytes(id).len() <= self.limit_bytes(id)
                &&& self.page_limit(id) <= MAX_REGION_PAGES
            } by {
                assert(before.bytes(id).len() % PAGE_BYTES as nat == 0);
                assert(before.bytes(id).len() <= before.limit_bytes(id));
                if id == region.id() {
                    assert((held * 65536 + pages * 65536) % 65536 == 0) by (nonlinear_arith);
                }
            }
        }
        Ok(held)
    }

    /// Writes `data` at `offset` of a region. Where the write ends beyond the
    /// region's capacity, the region first grows by whole zeroed pages, as far as
    /// the write reaches. A write that ends beyond the region's hard upper
    /// bound is refused before anything is grown or written.
    pub fn write(&mut self, region: &MemoryRegion, offset: u64, data: &[u8]) -> (r: Result<
        (),
        StorageError,
    >)
        requires
            old(self).well_formed(),
            region.well_formed(),
        ensures
            final(self).well_formed(),
            final(self).limits() == old(self).limits(),
            match r {
                Ok(()) => {
                    &&& offset + data@.len() <= old(self).limit_bytes(region.id())
                    &&& final(self).regions() == after_write(
                        old(self).regions(),
                        region.id(),
                        offset as nat,
                        data@,
                    )
                },
                Err(e) => {
                    &&& offset + data@.len() > old(self).limit_bytes(region.id())
                    &&& e == StorageError::RegionCapacityExceeded
                    &&& *final(self) == *old(self)
                },
            },
    {
        let limit_pages: u64 = self.limit_pages(region);
        let limit: u64 = limit_pages * PAGE_BYTES;
        if offset > limit || data.len() as u64 > limit - offset {
            return Err(StorageError::RegionCapacityExceeded);
        }
        let end: u64 = offset + data.len() as u64;
        let held: u64 = self.capacity_pages(region);
        let ghost before = *self;
        if end > held * PAGE_BYTES {
            let target: u64 = (end + (PAGE_BYTES - 1)) / PAGE_BYTES;
            proof {
                lemma_page_ceiling(end as nat, held as nat);
                lemma_page_ceiling(end as nat, limit_pages as nat);
            }
            let grew = self.grow(region, target - held);
            assert(grew is Ok);
        }
        let ghost grown_store = *self;
        let ghost grown_bytes = self.bytes(region.id());
        memory_write(&mut self.memory, region.id, offset, data);
        proof {
            assert(grown_bytes.len() == grown_len(before.bytes(region.id()).len(), end as nat));
            assert(self.bytes(region.id()) =~= write_result(
                before.bytes(region.id()),
                offset as nat,
                data@,
            ));
            assert forall|id: u8| id < REGION_COUNT && id != region.id() implies #[trigger]
                self.regions()[id] == before.regions()[id] by {
                assert(self.regions()[id] == grown_store.regions()[id]);
                assert(grown_store.regions()[id] == before.regions()[id]);
            }
            assert(self.regions() =~= after_write(
                before.regions(),
                region.id(),
                offset as nat,
                data@,
            ));
            assert forall|id: u8| id < REGION_COUNT implies {
                &&& (#[trigger] self.bytes(id)).len() % PAGE_BYTES as nat == 0
                &&& self.bytes(id).len() <= self.limit_bytes(id)
                &&& self.page_limit(id) <= MAX_REGION_PAGES
            } by {
                assert(grown_store.bytes(id).len() <= grown_store.limit_bytes(id));
                if id != region.id() {
                    assert(self.bytes(id) == before.bytes(id));
                }
            }
        }
        Ok(())
    }
}

/// Reading back what was just written, at the same offset and with the same
/// length, returns the written bytes.
pub proof fn lemma_write_then_read(bytes: Seq<u8>, offset: nat, data: Seq<u8>)
    ensures
        read_result(write_result(bytes, offset, data), offset, data.len()) == data,
{
    lemma_page_ceiling(offset + data.len(), 0);
    assert(read_result(write_result(bytes, offset, data), offset, data.len()) =~= data);
}

/// A write never takes capacity away: the region is afterwards at least as
/// long as it was, long enough for the write, still made of whole pages, and
/// holds every byte that the write did not cover.
pub proof fn lemma_write_keeps_capacity(bytes: Seq<u8>, offset: nat, data: Seq<u8>)
    ensures
        write_result(bytes, offset, data).len() >= bytes.len(),
        write_result(bytes, offset, data).len() >= offset + data.len(),
        bytes.len() % PAGE_BYTES as nat == 0 ==> write_result(bytes, offset, data).len()
            % PAGE_BYTES as nat == 0,
        forall|i: int|
            0 <= i < bytes.len() && !(offset <= i < offset + data.len()) ==> write_result(
                bytes,
                offset,
                data,
            )[i] == bytes[i],
{
    lemma_page_ceiling(offset + data.len(), 0);
}

/// What a write adds to a region beyond its old capacity, and does not itself
/// cover, reads as zero.
pub proof fn lemma_growth_reads_zero(
    bytes: Seq<u8>,
    offset: nat,
    data: Seq<u8>,
    from: nat,
    len: nat,
)
    requires
        bytes.len() <= from,
        from + len <= offset || offset + data.len() <= from,
    ensures
        read_result(write_result(bytes, offset, data), from, len) == zeros(len),
{
    assert(read_result(write_result(bytes, offset, data), from, len) =~= zeros(len));
}

} // verus!
