//! The growable memory that everything else is stored in.
//!
//! The bytes live in a `MemoryManager` of the `ic-stable-structures` crate, which
//! divides one linear memory into independently growable regions. Nothing in this
//! module is proved: each function states what the manager does, and the rest of
//! the crate is verified against these statements.

use ic_stable_structures::memory_manager::MemoryId;
use ic_stable_structures::memory_manager::MemoryManager;
use ic_stable_structures::Memory;
use ic_stable_structures::VectorMemory;
use vstd::prelude::*;

verus! {

/// Bytes in one page, the unit by which a region grows.
pub const PAGE_BYTES: u64 = 65536;

/// Number of regions the manager can address: identifiers `0..=254`.
pub const REGION_COUNT: u8 = 255;

/// Pages in one bucket, the unit in which the manager hands memory to a region.
pub const BUCKET_PAGES: u64 = 128;

/// Buckets the manager can hand out in total, over all regions.
pub const MAX_BUCKETS: u64 = 32768;

/// A sequence of `n` zero bytes.
pub open spec fn zeros(n: nat) -> Seq<u8> {
    Seq::new(n, |i: int| 0u8)
}

/// Buckets that a region of `len` bytes occupies: its pages, in units of
/// `BUCKET_PAGES`, rounded up.
pub open spec fn buckets_for(len: nat) -> nat {
    let bucket_bytes = BUCKET_PAGES * PAGE_BYTES;
    ((len + bucket_bytes - 1) / bucket_bytes) as nat
}

/// Buckets occupied by the regions with identifiers below `n`.
pub open spec fn buckets_below(regions: Map<u8, Seq<u8>>, n: nat) -> nat
    decreases n,
{
    if n == 0 {
        0
    } else {
        buckets_below(regions, (n - 1) as nat) + buckets_for(regions[(n - 1) as u8].len())
    }
}

/// Buckets occupied by all regions together.
pub open spec fn buckets_in_use(regions: Map<u8, Seq<u8>>) -> nat {
    buckets_below(regions, REGION_COUNT as nat)
}

/// The regions after region `id` has grown by `pages` zeroed pages.
pub open spec fn grown(regions: Map<u8, Seq<u8>>, id: u8, pages: nat) -> Map<u8, Seq<u8>> {
    regions.insert(id, regions[id] + zeros(pages * PAGE_BYTES as nat))
}

/// The regions after `src` has been copied into region `id` at `offset`.
pub open spec fn written(regions: Map<u8, Seq<u8>>, id: u8, offset: nat, src: Seq<u8>) -> Map<
    u8,
    Seq<u8>,
> {
    regions.insert(
        id,
        Seq::new(
            regions[id].len(),
            |i: int|
                if offset <= i < offset + src.len() {
                    src[i - offset]
                } else {
                    regions[id][i]
                },
        ),
    )
}

/// A memory manager over a vector-backed memory, together with a handle to
/// that memory for setting a manager up on it again.
///
/// The manager's type is bounded by a trait of its crate, which keeps it from
/// being declared to the verifier. So it is held here, hidden, and handled only
/// through the functions of this module.
#[verifier::external_body]
pub struct StableMemory {
    memory: VectorMemory,
    inner: MemoryManager<VectorMemory>,
}

/// The bytes of every region of a manager, by region identifier.
pub uninterp spec fn memory_regions(m: StableMemory) -> Map<u8, Seq<u8>>;

/// `MemoryManager::init` on an empty `VectorMemory`: a manager in which every
/// region is empty.
#[verifier::external_body]
pub(crate) fn memory_new() -> (m: StableMemory)
    ensures
        forall|id: u8| id < REGION_COUNT ==> (#[trigger] memory_regions(m)[id]).len() == 0,
{
    let memory = VectorMemory::default();
    StableMemory { inner: MemoryManager::init(memory.clone()), memory }
}

/// `MemoryManager::init` on the memory of an earlier manager: the new manager
/// finds the earlier one's layout in the memory and offers the same regions
/// with the same bytes.
#[verifier::external_body]
pub(crate) fn memory_reload(m: StableMemory) -> (reloaded: StableMemory)
    ensures
        memory_regions(reloaded) == memory_regions(m),
{
    StableMemory { inner: MemoryManager::init(m.memory.clone()), memory: m.memory }
}

/// `Memory::size` of the region `MemoryManager::get` returns: the region holds
/// exactly that many whole pages.
#[verifier::external_body]
pub(crate) fn memory_size(m: &StableMemory, id: u8) -> (pages: u64)
    requires
        id < REGION_COUNT,
    ensures
        pages * PAGE_BYTES == memory_regions(*m)[id].len(),
{
    m.inner.get(MemoryId::new(id)).size()
}

/// `Memory::grow` of the region `MemoryManager::get` returns.
///
/// The manager hands memory to a region in buckets of `BUCKET_PAGES` pages and
/// never takes a bucket back, so the buckets in use are those that the sizes of
/// the regions call for. It refuses, returns -1 and changes nothing, exactly when
/// the grown regions would call for more than `MAX_BUCKETS` buckets. Otherwise it
/// returns the region's size in pages before the call and appends `pages` zeroed
/// pages to that region; the other regions keep their bytes.
#[verifier::external_body]
pub(crate) fn memory_grow(m: &mut StableMemory, id: u8, pages: u64) -> (previous: i64)
    requires
        id < REGION_COUNT,
        memory_regions(*old(m))[id].len() + pages * PAGE_BYTES <= i64::MAX,
    ensures
        buckets_in_use(grown(memory_regions(*old(m)), id, pages as nat)) <= MAX_BUCKETS ==> {
            &&& previous * PAGE_BYTES == memory_regions(*old(m))[id].len()
            &&& memory_regions(*final(m)) == grown(memory_regions(*old(m)), id, pages as nat)
        },
        buckets_in_use(grown(memory_regions(*old(m)), id, pages as nat)) > MAX_BUCKETS ==> {
            &&& previous == -1
            &&& memory_regions(*final(m)) == memory_regions(*old(m))
        },
{
    m.inner.get(MemoryId::new(id)).grow(pages)
}

/// `Memory::read` of the region `MemoryManager::get` returns, into a fresh buffer
/// of `len` bytes: the bytes of the region from `offset` on.
#[verifier::external_body]
pub(crate) fn memory_read(m: &StableMemory, id: u8, offset: u64, len: usize) -> (bytes: Vec<u8>)
    requires
        id < REGION_COUNT,
        offset + len <= memory_regions(*m)[id].len(),
    ensures
        bytes@ == memory_regions(*m)[id].subrange(offset as int, offset + len),
{
    let mut bytes = vec![0u8; len];
    m.inner.get(MemoryId::new(id)).read(offset, &mut bytes);
    bytes
}

/// `Memory::write` of the region `MemoryManager::get` returns: `src` replaces the
/// bytes of the region from `offset` on; nothing else changes.
#[verifier::external_body]
pub(crate) fn memory_write(m: &mut StableMemory, id: u8, offset: u64, src: &[u8])
    requires
        id < REGION_COUNT,
        offset + src@.len() <= memory_regions(*old(m))[id].len(),
    ensures
        memory_regions(*final(m)) == written(
            memory_regions(*old(m)),
            id,
            offset as nat,
            src@,
        ),
{
    m.inner.get(MemoryId::new(id)).write(offset, src)
}

} // verus!
