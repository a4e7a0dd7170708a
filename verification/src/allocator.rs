//! Named regions of the one backing memory, attached by caller-assigned
//! identifiers and never deleted.

use crate::error::StorageError;
use crate::memory::grown;
use crate::memory::PAGE_BYTES;
use crate::memory::REGION_COUNT;
use crate::page_store::after_write;
use crate::page_store::read_result;
use crate::page_store::MemoryRegion;
use crate::page_store::PageStore;
use vstd::prelude::*;

verus! {

/// Hands out the regions of a page store and records which were asked for.
pub struct RegionAllocator {
    store: PageStore,
    attached: Vec<bool>,
}

impl RegionAllocator {
    /// The page store that holds the regions.
    pub closed spec fn store(&self) -> PageStore {
        self.store
    }

    /// Whether region `id` has been attached since the allocator was made.
    pub closed spec fn is_attached(&self, id: u8) -> bool {
        id < self.attached@.len() && self.attached@[id as int]
    }

    /// The bytes of every region, by region identifier.
    pub open spec fn regions(&self) -> Map<u8, Seq<u8>> {
        self.store().regions()
    }

    /// The bytes of region `id`.
    pub open spec fn bytes(&self, id: u8) -> Seq<u8> {
        self.regions()[id]
    }

    /// The hard upper bound of every region, in pages, by region identifier.
    pub open spec fn limits(&self) -> Seq<u64> {
        self.store().limits()
    }

    /// The hard upper bound of region `id`, in bytes.
    pub open spec fn limit_bytes(&self, id: u8) -> nat {
        self.store().limit_bytes(id)
    }

    /// The store is well formed and every region has its attachment flag.
    pub closed spec fn well_formed(&self) -> bool {
        &&& self.store.well_formed()
        &&& self.attached@.len() == REGION_COUNT
    }

    /// A well-formed allocator stands on a well-formed store.
    pub proof fn lemma_store_well_formed(&self)
        requires
            self.well_formed(),
        ensures
            self.store().well_formed(),
    {
    }

    /// In a well-formed allocator a region stays within its hard upper bound,
    /// which stays within the largest.
    pub proof fn lemma_region_bounds(&self, id: u8)
        requires
            self.well_formed(),
            id < REGION_COUNT,
        ensures
            self.bytes(id).len() <= self.limit_bytes(id),
            self.limit_bytes(id) <= crate::page_store::MAX_REGION_PAGES * PAGE_BYTES,
    {
        assert(self.store.bytes(id).len() <= self.store.limit_bytes(id));
        assert(self.store.page_limit(id) * 65536 <= 16384 * 65536) by (nonlinear_arith)
            requires
                self.store.page_limit(id) <= 16384,
        ;
    }

    /// An allocator over a store, with no region attached yet.
    pub fn new(store: PageStore) -> (allocator: RegionAllocator)
        requires
            store.well_formed(),
        ensures
            allocator.well_formed(),
            allocator.store() == store,
            forall|id: u8| !allocator.is_attached(id),
    {
        let mut attached: Vec<bool> = Vec::new();
        let mut id: u8 = 0;
        while id < REGION_COUNT
            invariant
                id <= REGION_COUNT,
                attached@.len() == id,
                forall|i: int| 0 <= i < id ==> !attached@[i],
            decreases REGION_COUNT - id,
        {
            attached.push(false);
            id = id + 1;
        }
        RegionAllocator { store, attached }
    }

    /// Gives the store back, as it is, for a new allocator to stand on.
    pub fn into_store(self) -> (store: PageStore)
        requires
            self.well_formed(),
        ensures
            store == self.store(),
            store.well_formed(),
    {
        self.store
    }

    /// The allocator as it is after a restart: the regions hold what they held,
    /// and none is attached yet.
    pub fn restart(self) -> (allocator: RegionAllocator)
        requires
            self.well_formed(),
        ensures
            allocator.well_formed(),
            allocator.regions() == self.regions(),
            allocator.limits() == self.limits(),
            forall|id: u8| !allocator.is_attached(id),
    {
        RegionAllocator::new(self.store.reload())
    }

    /// The handle to region `region_id`, attaching the region if it was not yet.
    /// No byte of any region changes, so a handle obtained again addresses what
    /// the first one did.
    pub fn get_or_create(&mut self, region_id: u8) -> (region: MemoryRegion)
        requires
            old(self).well_formed(),
            region_id < REGION_COUNT,
        ensures
            final(self).well_formed(),
            region.id() == region_id,
            region.well_formed(),
            final(self).store() == old(self).store(),
            forall|id: u8|
                final(self).is_attached(id) == (id == region_id || old(self).is_attached(id)),
    {
        self.attached.set(region_id as usize, true);
        MemoryRegion::new(region_id)
    }

    /// Whether region `region_id` has been attached.
    pub fn attached(&self, region_id: u8) -> (b: bool)
        requires
            self.well_formed(),
        ensures
            b == self.is_attached(region_id),
    {
        region_id < REGION_COUNT && self.attached[region_id as usize]
    }

    /// The hard upper bound of a region, in pages.
    pub fn limit_pages(&self, region: &MemoryRegion) -> (pages: u64)
        requires
            self.well_formed(),
            region.well_formed(),
        ensures
            pages * PAGE_BYTES == self.limit_bytes(region.id()),
            pages <= crate::page_store::MAX_REGION_PAGES,
    {
        self.store.limit_pages(region)
    }

    /// Sets the hard upper bound of a region, as `PageStore::set_limit` does.
    pub fn set_limit(&mut self, region: &MemoryRegion, pages: u64) -> (r: Result<(), StorageError>)
        requires
            old(self).well_formed(),
            region.well_formed(),
        ensures
            final(self).well_formed(),
            final(self).regions() == old(self).regions(),
            forall|id: u8| final(self).is_attached(id) == old(self).is_attached(id),
            match r {
                Ok(()) => {
                    &&& pages <= crate::page_store::MAX_REGION_PAGES
                    &&& old(self).bytes(region.id()).len() <= pages * PAGE_BYTES
                    &&& final(self).limits() == old(self).limits().update(region.id() as int, pages)
                },
                Err(e) => {
                    &&& pages > crate::page_store::MAX_REGION_PAGES || old(self).bytes(
                        region.id(),
                    ).len() > pages * PAGE_BYTES
                    &&& e == StorageError::RegionCapacityExceeded
                    &&& *final(self) == *old(self)
                },
            },
    {
        self.store.set_limit(region, pages)
    }

    /// The capacity of a region in pages.
    pub fn capacity_pages(&self, region: &MemoryRegion) -> (pages: u64)
        requires
            self.well_formed(),
            region.well_formed(),
        ensures
            pages * PAGE_BYTES == self.bytes(region.id()).len(),
            pages * PAGE_BYTES <= self.limit_bytes(region.id()),
            pages <= crate::page_store::MAX_REGION_PAGES,
    {
        let pages = self.store.capacity_pages(region);
        assert(pages * 65536 <= self.store.page_limit(region.id()) * 65536) by (nonlinear_arith)
            requires
                pages <= self.store.page_limit(region.id()),
        ;
        pages
    }

    /// Reads from a region as `PageStore::read` does.
    pub fn read(&self, region: &MemoryRegion, offset: u64, length: usize) -> (r: Result<
        Vec<u8>,
        StorageError,
    >)
        requires
            self.well_formed(),
            region.well_formed(),
        ensures
            match r {
                Ok(bytes) => {
                    &&& offset + length <= self.limit_bytes(region.id())
                    &&& bytes@ == read_result(self.bytes(region.id()), offset as nat, length as nat)
                },
                Err(e) => {
                    &&& offset + length > self.limit_bytes(region.id())
                    &&& e == StorageError::RegionCapacityExceeded
                },
            },
    {
        self.store.read(region, offset, length)
    }

    /// Writes to a region as `PageStore::write` does.
    pub fn write(&mut self, region: &MemoryRegion, offset: u64, data: &[u8]) -> (r: Result<
        (),
        StorageError,
    >)
        requires
            old(self).well_formed(),
            region.well_formed(),
        ensures
            final(self).well_formed(),
            final(self).limits() == old(self).limits(),
            forall|id: u8| final(self).is_attached(id) == old(self).is_attached(id),
            match r {
                Ok(()) => {
                    &&& offset + data@.len() <= old(self).limit_bytes(region.id())
                    &&& final(self).regions() == after_write(
                        old(self).regions(),
                        region.id(),
                        offset as nat,
                        data@,
                    )
                },
                Err(e) => {
                    &&& offset + data@.len() > old(self).limit_bytes(region.id())
                    &&& e == StorageError::RegionCapacityExceeded
                    &&& *final(self) == *old(self)
                },
            },
    {
        self.store.write(region, offset, data)
    }

    /// Grows a region as `PageStore::grow` does.
    pub fn grow(&mut self, region: &MemoryRegion, pages: u64) -> (r: Result<u64, StorageError>)
        requires
            old(self).well_formed(),
            region.well_formed(),
        ensures
            final(self).well_formed(),
            final(self).limits() == old(self).limits(),
            forall|id: u8| final(self).is_attached(id) == old(self).is_attached(id),
            match r {
                Ok(previous) => {
                    &&& old(self).bytes(region.id()).len() + pages * PAGE_BYTES <= old(
                        self,
                    ).limit_bytes(region.id())
                    &&& previous * PAGE_BYTES == old(self).bytes(region.id()).len()
                    &&& final(self).regions() == grown(
                        old(self).regions(),
                        region.id(),
                        pages as nat,
                    )
                },
                Err(e) => {
                    &&& old(self).bytes(region.id()).len() + pages * PAGE_BYTES > old(
                        self,
                    ).limit_bytes(region.id())
                    &&& e == StorageError::RegionCapacityExceeded
                    &&& *final(self) == *old(self)
                },
            },
    {
        self.store.grow(region, pages)
    }
}

/// Two handles obtained for the same region identifier address the same bytes:
/// what is written through the first is read back through the second.
pub proof fn lemma_handles_share_bytes(
    regions: Map<u8, Seq<u8>>,
    region_id: u8,
    first: MemoryRegion,
    second: MemoryRegion,
    offset: nat,
    data: Seq<u8>,
)
    requires
        first.id() == region_id,
        second.id() == region_id,
    ensures
        read_result(
            after_write(regions, first.id(), offset, data)[second.id()],
            offset,
            data.len(),
        ) == data,
{
    crate::page_store::lemma_write_then_read(regions[region_id], offset, data);
}

} // verus!
