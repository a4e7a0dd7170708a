//! Files over regions: a length, a cursor per open handle, and the usual file
//! operations, answered from the bytes of the region that a path is mounted to.
//!
//! A file keeps nothing outside its region. The first `HEADER_BYTES` bytes of
//! the region record the file's length, and the file's bytes follow them, so a
//! file can be found again, unchanged, by whoever mounts the region next.

use crate::allocator::RegionAllocator;
use crate::error::StorageError;
use crate::memory::grown;
use crate::memory::zeros;
use crate::memory::PAGE_BYTES;
use crate::memory::REGION_COUNT;
use crate::mount::mount_allowed;
use crate::mount::region_in_use;
use crate::mount::MountTable;
use crate::page_store::MemoryRegion;
use vstd::bytes::spec_u64_from_le_bytes;
use vstd::bytes::spec_u64_to_le_bytes;
use vstd::bytes::u64_from_le_bytes;
use vstd::bytes::u64_to_le_bytes;
use vstd::prelude::*;

verus! {

/// Bytes at the start of a region that record the length of its file.
pub const HEADER_BYTES: u64 = 8;

/// The length of the file in a region holding `bytes`: what the header
/// records, held to what the region has room for. An empty region holds an
/// empty file.
pub open spec fn stored_length(bytes: Seq<u8>) -> nat {
    if bytes.len() < HEADER_BYTES {
        0
    } else {
        let recorded = spec_u64_from_le_bytes(bytes.subrange(0, HEADER_BYTES as int)) as nat;
        if HEADER_BYTES + recorded <= bytes.len() {
            recorded
        } else {
            (bytes.len() - HEADER_BYTES) as nat
        }
    }
}

/// The bytes of the file in a region holding `bytes`.
pub open spec fn file_content(bytes: Seq<u8>) -> Seq<u8> {
    Seq::new(stored_length(bytes), |i: int| bytes[HEADER_BYTES + i])
}

/// What a read of up to `length` bytes at `cursor` returns: the bytes from the
/// cursor on, cut short only by the end of the file.
pub open spec fn read_at(content: Seq<u8>, cursor: nat, length: nat) -> Seq<u8> {
    if cursor >= content.len() {
        Seq::empty()
    } else if cursor + length <= content.len() {
        content.subrange(cursor as int, (cursor + length) as int)
    } else {
        content.subrange(cursor as int, content.len() as int)
    }
}

/// The file after `data` is written at `cursor`. An empty write changes
/// nothing. Otherwise the file reaches at least to the end of the write, and
/// what lies between its old end and the cursor is zero.
pub open spec fn content_after_write(content: Seq<u8>, cursor: nat, data: Seq<u8>) -> Seq<u8> {
    if data.len() == 0 {
        content
    } else {
        Seq::new(
            if cursor + data.len() > content.len() {
                cursor + data.len()
            } else {
                content.len()
            },
            |i: int|
                if cursor <= i < cursor + data.len() {
                    data[i - cursor]
                } else if i < content.len() {
                    content[i]
                } else {
                    0u8
                },
        )
    }
}

/// The file after its length is set to `length`: cut there, or extended with
/// zero bytes.
pub open spec fn content_after_truncate(content: Seq<u8>, length: nat) -> Seq<u8> {
    Seq::new(
        length,
        |i: int|
            if i < content.len() {
                content[i]
            } else {
                0u8
            },
    )
}

/// The file after `data` is put at position `at`, within or at the end of
/// `content`, and the length is set to `length`.
pub open spec fn content_after_store(content: Seq<u8>, at: nat, data: Seq<u8>, length: nat) -> Seq<
    u8,
> {
    Seq::new(
        length,
        |i: int|
            if at <= i < at + data.len() {
                data[i - at]
            } else {
                content[i]
            },
    )
}

/// From where a seek counts its offset.
#[derive(Debug, Clone, Copy, PartialEq, Eq)]
pub enum Whence {
    /// From the start of the file.
    Start,
    /// From the cursor.
    Current,
    /// From the end of the file.
    End,
}

/// The position that a seek asks for.
pub open spec fn seek_target(cursor: nat, length: nat, offset: int, whence: Whence) -> int {
    match whence {
        Whence::Start => offset,
        Whence::Current => cursor + offset,
        Whence::End => length + offset,
    }
}

/// How far a handle has locked its file. The levels are those the SQL engine
/// asks for, in rising order.
#[derive(Debug, Clone, Copy, PartialEq, Eq, Structural)]
pub enum LockLevel {
    /// No lock is held.
    Unlocked,
    /// The file may be read.
    Shared,
    /// The holder intends to write.
    Reserved,
    /// The holder waits for readers to leave.
    Pending,
    /// The file may be written.
    Exclusive,
}

/// The place of a lock level in the rising order.
pub open spec fn lock_rank(level: LockLevel) -> nat {
    match level {
        LockLevel::Unlocked => 0,
        LockLevel::Shared => 1,
        LockLevel::Reserved => 2,
        LockLevel::Pending => 3,
        LockLevel::Exclusive => 4,
    }
}

/// The higher of two lock levels.
pub open spec fn higher_lock(a: LockLevel, b: LockLevel) -> LockLevel {
    if lock_rank(a) >= lock_rank(b) {
        a
    } else {
        b
    }
}

/// The lower of two lock levels.
pub open spec fn lower_lock(a: LockLevel, b: LockLevel) -> LockLevel {
    if lock_rank(a) <= lock_rank(b) {
        a
    } else {
        b
    }
}

/// The place of a lock level in the rising order.
pub fn rank_of(level: LockLevel) -> (rank: u8)
    ensures
        rank == lock_rank(level),
{
    match level {
        LockLevel::Unlocked => 0,
        LockLevel::Shared => 1,
        LockLevel::Reserved => 2,
        LockLevel::Pending => 3,
        LockLevel::Exclusive => 4,
    }
}

/// The state of one handle.
pub struct OpenFile {
    /// The region whose file the handle was opened on.
    pub region: u8,
    /// Where the next read or write takes place.
    pub cursor: u64,
    /// Whether the handle is still open.
    pub open: bool,
    /// How far the handle has locked the file.
    pub lock: LockLevel,
}

/// Names one handle of a file table.
#[derive(Debug, Clone, Copy, PartialEq, Eq)]
pub struct FileHandle {
    index: usize,
}

impl FileHandle {
    /// The position of the handle's state in the table.
    pub closed spec fn index(&self) -> int {
        self.index as int
    }
}

/// The handles after every handle on `region` has been closed.
pub open spec fn handles_closed_on(handles: Seq<OpenFile>, region: u8) -> Seq<OpenFile> {
    Seq::new(
        handles.len(),
        |i: int|
            if handles[i].region == region {
                OpenFile {
                    region,
                    cursor: handles[i].cursor,
                    open: false,
                    lock: LockLevel::Unlocked,
                }
            } else {
                handles[i]
            },
    )
}

/// The mounted files and the handles opened on them.
pub struct VirtualFileTable {
    allocator: RegionAllocator,
    mounts: MountTable,
    handles: Vec<OpenFile>,
}

impl VirtualFileTable {
    /// The allocator whose regions hold the files.
    pub closed spec fn allocator(&self) -> RegionAllocator {
        self.allocator
    }

    /// The mounted paths, as a map from path to region identifier.
    pub closed spec fn mounts(&self) -> Map<Seq<char>, u8> {
        self.mounts@
    }

    /// The state of every handle given out so far, in the order of opening.
    pub closed spec fn handles(&self) -> Seq<OpenFile> {
        self.handles@
    }

    /// The bytes of every region, by region identifier.
    pub open spec fn regions(&self) -> Map<u8, Seq<u8>> {
        self.allocator().regions()
    }

    /// The hard upper bound of every region, in pages, by region identifier.
    pub open spec fn limits(&self) -> Seq<u64> {
        self.allocator().limits()
    }

    /// The hard upper bound of region `id`, in bytes.
    pub open spec fn limit_bytes(&self, id: u8) -> nat {
        self.allocator().limit_bytes(id)
    }

    /// Whether `handle` names an open handle of this table.
    pub open spec fn is_open(&self, handle: FileHandle) -> bool {
        0 <= handle.index() < self.handles().len() && self.handles()[handle.index()].open
    }

    /// The region that an open handle was opened on.
    pub open spec fn region_of(&self, handle: FileHandle) -> u8 {
        self.handles()[handle.index()].region
    }

    /// The cursor of an open handle.
    pub open spec fn cursor(&self, handle: FileHandle) -> u64 {
        self.handles()[handle.index()].cursor
    }

    /// How far an open handle has locked its file.
    pub open spec fn lock_of(&self, handle: FileHandle) -> LockLevel {
        self.handles()[handle.index()].lock
    }

    /// The bytes of the file that an open handle was opened on.
    pub open spec fn content(&self, handle: FileHandle) -> Seq<u8> {
        file_content(self.regions()[self.region_of(handle)])
    }

    /// The handles after the cursor of `handle` has moved to `cursor`.
    pub open spec fn handles_with_cursor(&self, handle: FileHandle, cursor: u64) -> Seq<
        OpenFile,
    > {
        self.handles().update(
            handle.index(),
            OpenFile {
                region: self.region_of(handle),
                cursor,
                open: true,
                lock: self.lock_of(handle),
            },
        )
    }

    /// The parts are well formed, and every open handle stands on a region that
    /// some path is mounted to.
    pub closed spec fn well_formed(&self) -> bool {
        &&& self.allocator.well_formed()
        &&& self.mounts.well_formed()
        &&& forall|i: int|
            0 <= i < self.handles@.len() && (#[trigger] self.handles@[i]).open ==> {
                &&& self.handles@[i].region < REGION_COUNT
                &&& region_in_use(self.mounts@, self.handles@[i].region)
            }
    }

    /// In a well-formed table the allocator and the mounts are well formed, and
    /// every open handle stands on a region that some path is mounted to.
    pub proof fn lemma_open_handles_are_mounted(&self)
        requires
            self.well_formed(),
        ensures
            self.allocator().well_formed(),
            crate::mount::mounts_valid(self.mounts()),
            forall|h: FileHandle| #[trigger]
                self.is_open(h) ==> self.region_of(h) < REGION_COUNT && region_in_use(
                    self.mounts(),
                    self.region_of(h),
                ),
    {
    }

    /// A table over an allocator, with nothing mounted and no handle open.
    pub fn new(allocator: RegionAllocator) -> (table: VirtualFileTable)
        requires
            allocator.well_formed(),
        ensures
            table.well_formed(),
            table.allocator() == allocator,
            table.mounts() == Map::<Seq<char>, u8>::empty(),
            table.handles() == Seq::<OpenFile>::empty(),
    {
        VirtualFileTable { allocator, mounts: MountTable::new(), handles: Vec::new() }
    }

    /// Gives the allocator back, as it is; the mounts and handles are dropped.
    pub fn into_allocator(self) -> (allocator: RegionAllocator)
        requires
            self.well_formed(),
        ensures
            allocator == self.allocator(),
            allocator.well_formed(),
    {
        self.allocator
    }

    /// The table as it is after a restart: the regions hold what they held,
    /// nothing is mounted and no handle is open.
    pub fn restart(self) -> (table: VirtualFileTable)
        requires
            self.well_formed(),
        ensures
            table.well_formed(),
            table.regions() == self.regions(),
            table.limits() == self.limits(),
            table.mounts() == Map::<Seq<char>, u8>::empty(),
            table.handles() == Seq::<OpenFile>::empty(),
    {
        VirtualFileTable::new(self.allocator.restart())
    }

    /// The hard upper bound of region `region_id`, in pages.
    pub fn limit_pages(&self, region_id: u8) -> (pages: u64)
        requires
            self.well_formed(),
            region_id < REGION_COUNT,
        ensures
            pages * PAGE_BYTES == self.limit_bytes(region_id),
            pages <= crate::page_store::MAX_REGION_PAGES,
    {
        self.allocator.limit_pages(&MemoryRegion::new(region_id))
    }

    /// Sets the hard upper bound of region `region_id` to `pages` pages. A
    /// bound above `MAX_REGION_PAGES`, or below what the region has already
    /// grown to, is refused, and then nothing changes.
    pub fn set_limit(&mut self, region_id: u8, pages: u64) -> (r: Result<(), StorageError>)
        requires
            old(self).well_formed(),
            region_id < REGION_COUNT,
        ensures
            final(self).well_formed(),
            final(self).regions() == old(self).regions(),
            final(self).mounts() == old(self).mounts(),
            final(self).handles() == old(self).handles(),
            match r {
                Ok(()) => {
                    &&& pages <= crate::page_store::MAX_REGION_PAGES
                    &&& old(self).regions()[region_id].len() <= pages * PAGE_BYTES
                    &&& final(self).limits() == old(self).limits().update(region_id as int, pages)
                },
                Err(e) => {
                    &&& pages > crate::page_store::MAX_REGION_PAGES || old(
                        self,
                    ).regions()[region_id].len() > pages * PAGE_BYTES
                    &&& e == StorageError::RegionCapacityExceeded
                    &&& final(self).limits() == old(self).limits()
                },
            },
    {
        self.allocator.set_limit(&MemoryRegion::new(region_id), pages)
    }

    /// Attaches region `region_id` and grows it by `pages` zeroed pages. Returns
    /// the region's capacity in pages before the call. Growth beyond the hard
    /// upper bound is refused. Mounts and handles stay as they are.
    pub fn grow_region(&mut self, region_id: u8, pages: u64) -> (r: Result<u64, StorageError>)
        requires
            old(self).well_formed(),
            region_id < REGION_COUNT,
        ensures
            final(self).well_formed(),
            final(self).mounts() == old(self).mounts(),
            final(self).handles() == old(self).handles(),
            final(self).limits() == old(self).limits(),
            match r {
                Ok(previous) => {
                    &&& old(self).regions()[region_id].len() + pages * PAGE_BYTES <= old(
                        self,
                    ).limit_bytes(region_id)
                    &&& previous * PAGE_BYTES == old(self).regions()[region_id].len()
                    &&& final(self).regions() == grown(old(self).regions(), region_id, pages as nat)
                },
                Err(e) => {
                    &&& old(self).regions()[region_id].len() + pages * PAGE_BYTES > old(
                        self,
                    ).limit_bytes(region_id)
                    &&& e == StorageError::RegionCapacityExceeded
                    &&& final(self).regions() == old(self).regions()
                },
            },
    {
        let region = self.allocator.get_or_create(region_id);
        self.allocator.grow(&region, pages)
    }

    /// Mounts `path` to region `region_id`, attaching the region. Refused, with
    /// nothing changed, where the path stands for another region or another
    /// path stands for the region. No byte of any region changes either way.
    pub fn mount(&mut self, path: &str, region_id: u8) -> (mounted: bool)
        requires
            old(self).well_formed(),
            region_id < REGION_COUNT,
        ensures
            final(self).well_formed(),
            mounted == mount_allowed(old(self).mounts(), path@, region_id),
            mounted ==> final(self).mounts() == old(self).mounts().insert(path@, region_id),
            !mounted ==> final(self).mounts() == old(self).mounts(),
            final(self).allocator().store() == old(self).allocator().store(),
            final(self).handles() == old(self).handles(),
    {
        let mounted = self.mounts.mount(path, region_id);
        if mounted {
            let _ = self.allocator.get_or_create(region_id);
            proof {
                assert forall|i: int|
                    0 <= i < self.handles@.len() && (#[trigger] self.handles@[i]).open implies region_in_use(
                    self.mounts@,
                    self.handles@[i].region,
                ) by {
                    let r = self.handles@[i].region;
                    let p = choose|p: Seq<char>| #[trigger]
                        old(self).mounts@.contains_key(p) && old(self).mounts@[p] == r;
                    if p == path@ {
                        assert(self.mounts@.contains_key(path@) && self.mounts@[path@] == r);
                    } else {
                        assert(self.mounts@.contains_key(p) && self.mounts@[p] == r);
                    }
                }
            }
        }
        mounted
    }

    /// The region that `path` is mounted to.
    pub fn resolve(&self, path: &str) -> (r: Result<u8, StorageError>)
        requires
            self.well_formed(),
        ensures
            match r {
                Ok(region) => self.mounts().contains_key(path@) && self.mounts()[path@] == region,
                Err(e) => !self.mounts().contains_key(path@) && e == StorageError::FileNotMounted,
            },
    {
        self.mounts.resolve(path)
    }

    /// Opens the file that `path` is mounted to. The new handle's cursor is at
    /// the start of the file.
    pub fn open(&mut self, path: &str) -> (r: Result<FileHandle, StorageError>)
        requires
            old(self).well_formed(),
        ensures
            final(self).well_formed(),
            final(self).allocator() == old(self).allocator(),
            final(self).mounts() == old(self).mounts(),
            match r {
                Ok(handle) => {
                    &&& old(self).mounts().contains_key(path@)
                    &&& handle.index() == old(self).handles().len()
                    &&& final(self).handles() == old(self).handles().push(
                        OpenFile {
                            region: old(self).mounts()[path@],
                            cursor: 0,
                            open: true,
                            lock: LockLevel::Unlocked,
                        },
                    )
                },
                Err(e) => {
                    &&& !old(self).mounts().contains_key(path@)
                    &&& e == StorageError::FileNotMounted
                    &&& final(self).handles() == old(self).handles()
                },
            },
    {
        match self.mounts.resolve(path) {
            Ok(region) => {
                let index = self.handles.len();
                self.handles.push(
                    OpenFile { region, cursor: 0, open: true, lock: LockLevel::Unlocked },
                );
                proof {
                    assert(self.mounts@.contains_key(path@) && self.mounts@[path@] == region);
                    assert(region_in_use(self.mounts@, region));
                }
                Ok(FileHandle { index })
            },
            Err(_) => Err(StorageError::FileNotMounted),
        }
    }

    /// Closes a handle; the file and the other handles stay as they are.
    pub fn close(&mut self, handle: FileHandle) -> (r: Result<(), StorageError>)
        requires
            old(self).well_formed(),
        ensures
            final(self).well_formed(),
            final(self).allocator() == old(self).allocator(),
            final(self).mounts() == old(self).mounts(),
            match r {
                Ok(()) => {
                    &&& old(self).is_open(handle)
                    &&& final(self).handles() == old(self).handles().update(
                        handle.index(),
                        OpenFile {
                            region: old(self).region_of(handle),
                            cursor: old(self).cursor(handle),
                            open: false,
                            lock: LockLevel::Unlocked,
                        },
                    )
                },
                Err(e) => {
                    &&& !old(self).is_open(handle)
                    &&& e == StorageError::FileNotMounted
                    &&& final(self).handles() == old(self).handles()
                },
            },
    {
        if handle.index >= self.handles.len() || !self.handles[handle.index].open {
            return Err(StorageError::FileNotMounted);
        }
        let region = self.handles[handle.index].region;
        let cursor = self.handles[handle.index].cursor;
        self.handles.set(
            handle.index,
            OpenFile { region, cursor, open: false, lock: LockLevel::Unlocked },
        );
        Ok(())
    }

    /// Removes the mount of `path`, closing every handle on its region, and
    /// says whether there was a mount. The region keeps its bytes.
    pub fn unmount(&mut self, path: &str) -> (removed: bool)
        requires
            old(self).well_formed(),
        ensures
            final(self).well_formed(),
            final(self).allocator() == old(self).allocator(),
            removed == old(self).mounts().contains_key(path@),
            final(self).mounts() == old(self).mounts().remove(path@),
            removed ==> final(self).handles() == handles_closed_on(
                old(self).handles(),
                old(self).mounts()[path@],
            ),
            !removed ==> final(self).handles() == old(self).handles(),
    {
        let region = match self.mounts.resolve(path) {
            Ok(region) => region,
            Err(_) => {
                assert(self.mounts@.remove(path@) =~= self.mounts@);
                return false;
            },
        };
        let ghost before = *self;
        self.mounts.unmount(path);
        let mut i: usize = 0;
        while i < self.handles.len()
            invariant
                i <= self.handles@.len(),
                self.handles@.len() == before.handles@.len(),
                self.allocator == before.allocator,
                self.mounts@ == before.mounts@.remove(path@),
                self.mounts.well_formed(),
                forall|k: int|
                    0 <= k < i ==> #[trigger] self.handles@[k] == handles_closed_on(
                        before.handles@,
                        region,
                    )[k],
                forall|k: int| i <= k < self.handles@.len() ==> self.handles@[k] == before.handles@[k],
            decreases self.handles@.len() - i,
        {
            if self.handles[i].region == region {
                let cursor = self.handles[i].cursor;
                self.handles.set(
                    i,
                    OpenFile { region, cursor, open: false, lock: LockLevel::Unlocked },
                );
            }
            i = i + 1;
        }
        proof {
            assert(self.handles@ =~= handles_closed_on(before.handles@, region));
            assert forall|k: int|
                0 <= k < self.handles@.len() && (#[trigger] self.handles@[k]).open implies {
                &&& self.handles@[k].region < REGION_COUNT
                &&& region_in_use(self.mounts@, self.handles@[k].region)
            } by {
                let r = self.handles@[k].region;
                assert(before.handles@[k].open && before.handles@[k].region == r);
                let p = choose|p: Seq<char>| #[trigger]
                    before.mounts@.contains_key(p) && before.mounts@[p] == r;
                assert(self.mounts@.contains_key(p) && self.mounts@[p] == r);
            }
        }
        true
    }

    /// The length of the file in a region, read from the region's header.
    fn file_length(&self, region: &MemoryRegion) -> (length: u64)
        requires
            self.well_formed(),
            region.well_formed(),
        ensures
            length == stored_length(self.regions()[region.id()]),
            length == 0 || HEADER_BYTES + length <= self.regions()[region.id()].len(),
            HEADER_BYTES + length <= self.limit_bytes(region.id()) || length == 0,
            length <= crate::page_store::MAX_REGION_PAGES * PAGE_BYTES,
    {
        proof {
            self.allocator.lemma_store_well_formed();
        }
        let pages = self.allocator.capacity_pages(region);
        if pages == 0 {
            return 0;
        }
        let capacity: u64 = pages * PAGE_BYTES;
        match self.allocator.read(region, 0, 8) {
            Ok(header) => {
                let recorded = u64_from_le_bytes(header.as_slice());
                assert(header@ =~= self.regions()[region.id()].subrange(0, HEADER_BYTES as int));
                if recorded <= capacity - HEADER_BYTES {
                    recorded
                } else {
                    capacity - HEADER_BYTES
                }
            },
            Err(_) => 0,
        }
    }

    /// The length of the file that `handle` was opened on.
    pub fn size(&self, handle: FileHandle) -> (r: Result<u64, StorageError>)
        requires
            self.well_formed(),
        ensures
            match r {
                Ok(length) => self.is_open(handle) && length == self.content(handle).len(),
                Err(e) => !self.is_open(handle) && e == StorageError::FileNotMounted,
            },
    {
        if handle.index >= self.handles.len() || !self.handles[handle.index].open {
            return Err(StorageError::FileNotMounted);
        }
        let region = MemoryRegion::new(self.handles[handle.index].region);
        Ok(self.file_length(&region))
    }

    /// Does nothing: a write is visible to every later read as soon as it
    /// returns, so there is nothing left to make durable.
    pub fn flush(&self, handle: FileHandle) {
    }

    /// Reads up to `length` bytes at the cursor and moves the cursor past them.
    /// Fewer bytes than asked for come back only where the file ends.
    pub fn read(&mut self, handle: FileHandle, length: usize) -> (r: Result<Vec<u8>, StorageError>)
        requires
            old(self).well_formed(),
        ensures
            final(self).well_formed(),
            final(self).allocator() == old(self).allocator(),
            final(self).mounts() == old(self).mounts(),
            match r {
                Ok(bytes) => {
                    &&& old(self).is_open(handle)
                    &&& bytes@ == read_at(
                        old(self).content(handle),
                        old(self).cursor(handle) as nat,
                        length as nat,
                    )
                    &&& final(self).handles() == old(self).handles_with_cursor(
                        handle,
                        (old(self).cursor(handle) + bytes@.len()) as u64,
                    )
                },
                Err(e) => {
                    &&& !old(self).is_open(handle)
                    &&& e == StorageError::FileNotMounted
                    &&& final(self).handles() == old(self).handles()
                },
            },
    {
        if handle.index >= self.handles.len() || !self.handles[handle.index].open {
            return Err(StorageError::FileNotMounted);
        }
        let region = MemoryRegion::new(self.handles[handle.index].region);
        let cursor = self.handles[handle.index].cursor;
        let held = self.file_length(&region);
        if cursor >= held || length == 0 {
            assert(self.handles@ =~= self.handles_with_cursor(handle, cursor));
            return Ok(Vec::new());
        }
        let take: usize = if length as u64 <= held - cursor {
            length
        } else {
            (held - cursor) as usize
        };
        proof {
            self.allocator.lemma_store_well_formed();
        }
        match self.allocator.read(&region, HEADER_BYTES + cursor, take) {
            Ok(bytes) => {
                assert(bytes@ =~= read_at(
                    self.content(handle),
                    cursor as nat,
                    length as nat,
                ));
                let lock = self.handles[handle.index].lock;
                self.handles.set(
                    handle.index,
                    OpenFile {
                        region: region.region_id(),
                        cursor: cursor + take as u64,
                        open: true,
                        lock,
                    },
                );
                Ok(bytes)
            },
            Err(_) => Ok(Vec::new()),
        }
    }

    /// Moves the cursor to `offset` counted from `whence`, and returns the new
    /// position. A position before the start of the file, or one that no
    /// cursor can hold, is refused and the cursor stays where it was. The
    /// cursor may stand beyond the end of the file.
    pub fn seek(&mut self, handle: FileHandle, offset: i64, whence: Whence) -> (r: Result<
        u64,
        StorageError,
    >)
        requires
            old(self).well_formed(),
        ensures
            final(self).well_formed(),
            final(self).allocator() == old(self).allocator(),
            final(self).mounts() == old(self).mounts(),
            match r {
                Ok(position) => {
                    &&& old(self).is_open(handle)
                    &&& position == seek_target(
                        old(self).cursor(handle) as nat,
                        old(self).content(handle).len(),
                        offset as int,
                        whence,
                    )
                    &&& final(self).handles() == old(self).handles_with_cursor(handle, position)
                },
                Err(e) => {
                    &&& final(self).handles() == old(self).handles()
                    &&& if old(self).is_open(handle) {
                        let target = seek_target(
                            old(self).cursor(handle) as nat,
                            old(self).content(handle).len(),
                            offset as int,
                            whence,
                        );
                        e == StorageError::InvalidSeek && (target < 0 || target > u64::MAX)
                    } else {
                        e == StorageError::FileNotMounted
                    }
                },
            },
    {
        if handle.index >= self.handles.len() || !self.handles[handle.index].open {
            return Err(StorageError::FileNotMounted);
        }
        let region = MemoryRegion::new(self.handles[handle.index].region);
        let base: u64 = match whence {
            Whence::Start => 0,
            Whence::Current => self.handles[handle.index].cursor,
            Whence::End => self.file_length(&region),
        };
        let target: i128 = base as i128 + offset as i128;
        if target < 0 || target > u64::MAX as i128 {
            return Err(StorageError::InvalidSeek);
        }
        let position: u64 = target as u64;
        let lock = self.handles[handle.index].lock;
        self.handles.set(
            handle.index,
            OpenFile { region: region.region_id(), cursor: position, open: true, lock },
        );
        Ok(position)
    }

    /// Puts `data` at position `at` of the file in a region and records
    /// `length` as the file's length. The caller has made sure that the hard
    /// upper bound admits it, so nothing is refused.
    fn store(&mut self, region: &MemoryRegion, held: u64, at: u64, data: &[u8], length: u64)
        requires
            old(self).well_formed(),
            region.well_formed(),
            held == stored_length(old(self).regions()[region.id()]),
            at <= held,
            at + data@.len() <= length,
            length > held ==> length == at + data@.len(),
            HEADER_BYTES + length <= old(self).limit_bytes(region.id()),
        ensures
            final(self).well_formed(),
            final(self).mounts() == old(self).mounts(),
            final(self).handles() == old(self).handles(),
            final(self).limits() == old(self).limits(),
            forall|id: u8|
                id != region.id() ==> final(self).regions()[id] == old(self).regions()[id],
            final(self).regions()[region.id()].len() >= old(self).regions()[region.id()].len(),
            file_content(final(self).regions()[region.id()]) == content_after_store(
                file_content(old(self).regions()[region.id()]),
                at as nat,
                data@,
                length as nat,
            ),
    {
        proof {
            self.allocator.lemma_store_well_formed();
            self.allocator.lemma_region_bounds(region.id());
        }
        let ghost before = self.regions()[region.id()];
        if data.len() > 0 {
            let put = self.allocator.write(region, HEADER_BYTES + at, data);
            assert(put is Ok);
        }
        let ghost placed = self.regions()[region.id()];
        assert(placed.len() >= before.len());
        assert(held > 0 ==> HEADER_BYTES + held <= before.len());
        assert(forall|i: int| 0 <= i < HEADER_BYTES && i < before.len() ==> placed[i] == before[i]);
        if length != held {
            let header = u64_to_le_bytes(length);
            proof {
                self.allocator.lemma_store_well_formed();
            }
            let put = self.allocator.write(region, 0, header.as_slice());
            assert(put is Ok);
            proof {
                vstd::bytes::lemma_auto_spec_u64_to_from_le_bytes();
                let after = self.regions()[region.id()];
                assert(after.len() >= placed.len());
                assert(after.subrange(0, HEADER_BYTES as int) =~= spec_u64_to_le_bytes(length));
                assert(HEADER_BYTES + length <= after.len());
                assert(stored_length(after) == length);
            }
        } else {
            proof {
                assert(placed.len() == before.len());
                if before.len() >= HEADER_BYTES {
                    assert(placed.subrange(0, HEADER_BYTES as int) =~= before.subrange(
                        0,
                        HEADER_BYTES as int,
                    ));
                }
                assert(stored_length(placed) == length);
            }
        }
        proof {
            let after = self.regions()[region.id()];
            assert(file_content(after) =~= content_after_store(
                file_content(before),
                at as nat,
                data@,
                length as nat,
            ));
        }
    }

    /// Writes `data` at the cursor and moves the cursor past it. A write that
    /// passes the end of the file extends the file; where the cursor stood
    /// beyond the end, the bytes in between become zero. An empty write changes
    /// nothing. A write that the hard upper bound of the region does not admit
    /// is refused before anything changes.
    pub fn write(&mut self, handle: FileHandle, data: &[u8]) -> (r: Result<(), StorageError>)
        requires
            old(self).well_formed(),
        ensures
            final(self).well_formed(),
            final(self).mounts() == old(self).mounts(),
            final(self).limits() == old(self).limits(),
            match r {
                Ok(()) => {
                    &&& old(self).is_open(handle)
                    &&& data@.len() > 0 ==> HEADER_BYTES + old(self).cursor(handle) + data@.len()
                        <= old(self).limit_bytes(old(self).region_of(handle))
                    &&& final(self).content(handle) == content_after_write(
                        old(self).content(handle),
                        old(self).cursor(handle) as nat,
                        data@,
                    )
                    &&& final(self).handles() == old(self).handles_with_cursor(
                        handle,
                        (old(self).cursor(handle) + data@.len()) as u64,
                    )
                    &&& forall|id: u8|
                        id != old(self).region_of(handle) ==> final(self).regions()[id] == old(
                            self,
                        ).regions()[id]
                    &&& final(self).regions()[old(self).region_of(handle)].len() >= old(
                        self,
                    ).regions()[old(self).region_of(handle)].len()
                },
                Err(e) => {
                    &&& final(self).allocator() == old(self).allocator()
                    &&& final(self).handles() == old(self).handles()
                    &&& if old(self).is_open(handle) {
                        &&& e == StorageError::RegionCapacityExceeded
                        &&& data@.len() > 0
                        &&& HEADER_BYTES + old(self).cursor(handle) + data@.len() > old(
                            self,
                        ).limit_bytes(old(self).region_of(handle))
                    } else {
                        e == StorageError::FileNotMounted
                    }
                },
            },
    {
        if handle.index >= self.handles.len() || !self.handles[handle.index].open {
            return Err(StorageError::FileNotMounted);
        }
        let region = MemoryRegion::new(self.handles[handle.index].region);
        let cursor = self.handles[handle.index].cursor;
        if data.len() == 0 {
            assert(self.handles@ =~= self.handles_with_cursor(handle, cursor));
            return Ok(());
        }
        proof {
            self.allocator.lemma_store_well_formed();
        }
        let limit: u64 = self.allocator.limit_pages(&region) * PAGE_BYTES;
        if limit < HEADER_BYTES || cursor > limit - HEADER_BYTES || data.len() as u64 > limit
            - HEADER_BYTES - cursor {
            return Err(StorageError::RegionCapacityExceeded);
        }
        let end: u64 = cursor + data.len() as u64;
        let held = self.file_length(&region);
        let ghost before = file_content(self.regions()[region.id()]);
        if cursor > held {
            let gap: usize = (cursor - held) as usize;
            let mut padded: Vec<u8> = vec![0u8; gap];
            padded.extend_from_slice(data);
            assert(padded@ =~= zeros((cursor - held) as nat) + data@);
            self.store(&region, held, held, padded.as_slice(), end);
        } else {
            let length = if end > held {
                end
            } else {
                held
            };
            self.store(&region, held, cursor, data, length);
        }
        assert(file_content(self.regions()[region.id()]) =~= content_after_write(
            before,
            cursor as nat,
            data@,
        ));
        let lock = self.handles[handle.index].lock;
        self.handles.set(
            handle.index,
            OpenFile { region: region.region_id(), cursor: end, open: true, lock },
        );
        Ok(())
    }

    /// Sets the length of the file to `new_length`: cut there, or extended with
    /// zero bytes. The region never shrinks. The cursor stays where it is. A
    /// length that the hard upper bound of the region does not admit is
    /// refused before anything changes.
    pub fn truncate(&mut self, handle: FileHandle, new_length: u64) -> (r: Result<
        (),
        StorageError,
    >)
        requires
            old(self).well_formed(),
        ensures
            final(self).well_formed(),
            final(self).mounts() == old(self).mounts(),
            final(self).handles() == old(self).handles(),
            final(self).limits() == old(self).limits(),
            match r {
                Ok(()) => {
                    &&& old(self).is_open(handle)
                    &&& new_length > old(self).content(handle).len() ==> HEADER_BYTES + new_length
                        <= old(self).limit_bytes(old(self).region_of(handle))
                    &&& final(self).content(handle) == content_after_truncate(
                        old(self).content(handle),
                        new_length as nat,
                    )
                    &&& forall|id: u8|
                        id != old(self).region_of(handle) ==> final(self).regions()[id] == old(
                            self,
                        ).regions()[id]
                    &&& final(self).regions()[old(self).region_of(handle)].len() >= old(
                        self,
                    ).regions()[old(self).region_of(handle)].len()
                },
                Err(e) => {
                    &&& final(self).allocator() == old(self).allocator()
                    &&& if old(self).is_open(handle) {
                        &&& e == StorageError::RegionCapacityExceeded
                        &&& new_length > old(self).content(handle).len()
                        &&& HEADER_BYTES + new_length > old(self).limit_bytes(
                            old(self).region_of(handle),
                        )
                    } else {
                        e == StorageError::FileNotMounted
                    }
                },
            },
    {
        if handle.index >= self.handles.len() || !self.handles[handle.index].open {
            return Err(StorageError::FileNotMounted);
        }
        let region = MemoryRegion::new(self.handles[handle.index].region);
        let held = self.file_length(&region);
        let ghost before = file_content(self.regions()[region.id()]);
        if new_length == held {
            assert(before =~= content_after_truncate(before, new_length as nat));
        } else if new_length < held {
            let nothing: Vec<u8> = Vec::new();
            self.store(&region, held, new_length, nothing.as_slice(), new_length);
        } else {
            proof {
                self.allocator.lemma_store_well_formed();
            }
            let limit: u64 = self.allocator.limit_pages(&region) * PAGE_BYTES;
            if limit < HEADER_BYTES || new_length > limit - HEADER_BYTES {
                return Err(StorageError::RegionCapacityExceeded);
            }
            let gap: usize = (new_length - held) as usize;
            let padding: Vec<u8> = vec![0u8; gap];
            assert(padding@ =~= zeros((new_length - held) as nat));
            self.store(&region, held, held, padding.as_slice(), new_length);
        }
        assert(file_content(self.regions()[region.id()]) =~= content_after_truncate(
            before,
            new_length as nat,
        ));
        Ok(())
    }

    /// The handles after the lock of `handle` has become `lock`.
    pub open spec fn handles_with_lock(&self, handle: FileHandle, lock: LockLevel) -> Seq<
        OpenFile,
    > {
        self.handles().update(
            handle.index(),
            OpenFile {
                region: self.region_of(handle),
                cursor: self.cursor(handle),
                open: true,
                lock,
            },
        )
    }

    /// Raises the lock of a handle to `level`; a handle that already holds as
    /// much keeps what it holds. One process with one thread is the only user
    /// of the files, so no lock is ever refused to an open handle.
    pub fn lock(&mut self, handle: FileHandle, level: LockLevel) -> (r: Result<(), StorageError>)
        requires
            old(self).well_formed(),
        ensures
            final(self).well_formed(),
            final(self).allocator() == old(self).allocator(),
            final(self).mounts() == old(self).mounts(),
            match r {
                Ok(()) => {
                    &&& old(self).is_open(handle)
                    &&& final(self).handles() == old(self).handles_with_lock(
                        handle,
                        higher_lock(old(self).lock_of(handle), level),
                    )
                },
                Err(e) => {
                    &&& !old(self).is_open(handle)
                    &&& e == StorageError::FileNotMounted
                    &&& final(self).handles() == old(self).handles()
                },
            },
    {
        if handle.index >= self.handles.len() || !self.handles[handle.index].open {
            return Err(StorageError::FileNotMounted);
        }
        let region = self.handles[handle.index].region;
        let cursor = self.handles[handle.index].cursor;
        let held = self.handles[handle.index].lock;
        let lock = if rank_of(held) >= rank_of(level) {
            held
        } else {
            level
        };
        self.handles.set(handle.index, OpenFile { region, cursor, open: true, lock });
        Ok(())
    }

    /// Lowers the lock of a handle to `level`; a handle that holds less keeps
    /// what it holds.
    pub fn unlock(&mut self, handle: FileHandle, level: LockLevel) -> (r: Result<
        (),
        StorageError,
    >)
        requires
            old(self).well_formed(),
        ensures
            final(self).well_formed(),
            final(self).allocator() == old(self).allocator(),
            final(self).mounts() == old(self).mounts(),
            match r {
                Ok(()) => {
                    &&& old(self).is_open(handle)
                    &&& final(self).handles() == old(self).handles_with_lock(
                        handle,
                        lower_lock(old(self).lock_of(handle), level),
                    )
                },
                Err(e) => {
                    &&& !old(self).is_open(handle)
                    &&& e == StorageError::FileNotMounted
                    &&& final(self).handles() == old(self).handles()
                },
            },
    {
        if handle.index >= self.handles.len() || !self.handles[handle.index].open {
            return Err(StorageError::FileNotMounted);
        }
        let region = self.handles[handle.index].region;
        let cursor = self.handles[handle.index].cursor;
        let held = self.handles[handle.index].lock;
        let lock = if rank_of(held) <= rank_of(level) {
            held
        } else {
            level
        };
        self.handles.set(handle.index, OpenFile { region, cursor, open: true, lock });
        Ok(())
    }

    /// How far a handle has locked its file.
    pub fn lock_level(&self, handle: FileHandle) -> (r: Result<LockLevel, StorageError>)
        requires
            self.well_formed(),
        ensures
            match r {
                Ok(level) => self.is_open(handle) && level == self.lock_of(handle),
                Err(e) => !self.is_open(handle) && e == StorageError::FileNotMounted,
            },
    {
        if handle.index >= self.handles.len() || !self.handles[handle.index].open {
            return Err(StorageError::FileNotMounted);
        }
        Ok(self.handles[handle.index].lock)
    }

    /// Whether some open handle on the file of `handle` holds a lock of at
    /// least the reserved level.
    pub open spec fn reserved_on(&self, handle: FileHandle) -> bool {
        exists|i: int|
            0 <= i < self.handles().len() && (#[trigger] self.handles()[i]).open
                && self.handles()[i].region == self.region_of(handle) && lock_rank(
                self.handles()[i].lock,
            ) >= lock_rank(LockLevel::Reserved)
    }

    /// Whether some open handle on the same file, this one included, holds a
    /// lock of at least the reserved level.
    pub fn check_reserved_lock(&self, handle: FileHandle) -> (r: Result<bool, StorageError>)
        requires
            self.well_formed(),
        ensures
            match r {
                Ok(reserved) => self.is_open(handle) && reserved == self.reserved_on(handle),
                Err(e) => !self.is_open(handle) && e == StorageError::FileNotMounted,
            },
    {
        if handle.index >= self.handles.len() || !self.handles[handle.index].open {
            return Err(StorageError::FileNotMounted);
        }
        let region = self.handles[handle.index].region;
        let mut i: usize = 0;
        while i < self.handles.len()
            invariant
                i <= self.handles@.len(),
                self.is_open(handle),
                region == self.region_of(handle),
                forall|k: int|
                    0 <= k < i ==> !((#[trigger] self.handles@[k]).open && self.handles@[k].region
                        == region && lock_rank(self.handles@[k].lock) >= lock_rank(
                        LockLevel::Reserved,
                    )),
            decreases self.handles@.len() - i,
        {
            if self.handles[i].open && self.handles[i].region == region && rank_of(
                self.handles[i].lock,
            ) >= 2 {
                assert(self.handles()[i as int].open && self.handles()[i as int].region
                    == self.region_of(handle));
                return Ok(true);
            }
            i = i + 1;
        }
        Ok(false)
    }

    /// The region that a handle was opened on.
    pub fn region(&self, handle: FileHandle) -> (r: Result<u8, StorageError>)
        requires
            self.well_formed(),
        ensures
            match r {
                Ok(region) => {
                    &&& self.is_open(handle)
                    &&& region == self.region_of(handle)
                    &&& region < REGION_COUNT
                },
                Err(e) => !self.is_open(handle) && e == StorageError::FileNotMounted,
            },
    {
        if handle.index >= self.handles.len() || !self.handles[handle.index].open {
            return Err(StorageError::FileNotMounted);
        }
        Ok(self.handles[handle.index].region)
    }

    /// The cursor of a handle.
    pub fn position(&self, handle: FileHandle) -> (r: Result<u64, StorageError>)
        requires
            self.well_formed(),
        ensures
            match r {
                Ok(cursor) => self.is_open(handle) && cursor == self.cursor(handle),
                Err(e) => !self.is_open(handle) && e == StorageError::FileNotMounted,
            },
    {
        if handle.index >= self.handles.len() || !self.handles[handle.index].open {
            return Err(StorageError::FileNotMounted);
        }
        Ok(self.handles[handle.index].cursor)
    }
}

/// A file never reaches beyond its region: its bytes, and the header in front
/// of them, lie within the region's capacity.
pub proof fn lemma_file_within_region(bytes: Seq<u8>)
    ensures
        file_content(bytes).len() <= bytes.len(),
        file_content(bytes).len() > 0 ==> HEADER_BYTES + file_content(bytes).len() <= bytes.len(),
{
}

/// Reading at the position where bytes were just written returns those bytes.
pub proof fn lemma_file_write_then_read(content: Seq<u8>, cursor: nat, data: Seq<u8>)
    ensures
        read_at(content_after_write(content, cursor, data), cursor, data.len()) == data,
{
    assert(read_at(content_after_write(content, cursor, data), cursor, data.len()) =~= data);
}

/// A file is a function of the bytes of its region. So where a restart has
/// kept the regions, a handle opened on the region again finds what an earlier
/// handle wrote there.
pub proof fn lemma_restart_keeps_written_bytes(
    before: VirtualFileTable,
    after: VirtualFileTable,
    first: FileHandle,
    second: FileHandle,
    earlier: Seq<u8>,
    cursor: nat,
    data: Seq<u8>,
)
    requires
        before.content(first) == content_after_write(earlier, cursor, data),
        after.regions() == before.regions(),
        after.region_of(second) == before.region_of(first),
    ensures
        after.content(second) == before.content(first),
        read_at(after.content(second), cursor, data.len()) == data,
{
    lemma_file_write_then_read(earlier, cursor, data);
}

/// After a file is cut to `length`, a read at or beyond `length` returns
/// nothing.
pub proof fn lemma_truncate_then_read(content: Seq<u8>, length: nat, cursor: nat, wanted: nat)
    requires
        cursor >= length,
    ensures
        read_at(content_after_truncate(content, length), cursor, wanted) == Seq::<u8>::empty(),
{
}

/// Bytes cut off by a truncation do not come back: when the file later grows
/// past the cut, by a write beyond it or by a longer truncation, everything
/// from the cut up to the new bytes is zero.
pub proof fn lemma_truncated_bytes_stay_gone(
    content: Seq<u8>,
    length: nat,
    cursor: nat,
    data: Seq<u8>,
    longer: nat,
)
    requires
        length <= cursor,
        data.len() > 0,
        length <= longer,
    ensures
        forall|i: int|
            length <= i < cursor ==> content_after_write(
                content_after_truncate(content, length),
                cursor,
                data,
            )[i] == 0u8,
        forall|i: int|
            length <= i < longer ==> content_after_truncate(
                content_after_truncate(content, length),
                longer,
            )[i] == 0u8,
{
}

} // verus!
