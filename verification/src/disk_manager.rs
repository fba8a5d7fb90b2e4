//! The disk manager: page identifier allocation and fixed-size page
//! read/write against a flat backing store.
//!
//! The backing store is a plain sequence of bytes in which page `n` occupies
//! the byte range `[n * PAGE_SIZE, (n + 1) * PAGE_SIZE)`. There is no header,
//! no metadata and no checksum; the allocation counter is not persisted
//! separately but recomputed from the store's length on open. Callers that
//! need the store on disk keep the bytes in a file and hand them to and from
//! this module; the offset arithmetic, the counter and the read/write
//! semantics live here.

use vstd::pervasive::VecAdditionalExecFns;
use vstd::prelude::*;

verus! {

/// Size of every page in bytes, fixed at build time.
pub const PAGE_SIZE: usize = 4096;

/// The single error kind of this layer: an I/O-level failure such as a
/// short read past the end of the backing store.
#[derive(Clone, Copy, Debug, PartialEq, Eq, Structural)]
pub struct IoError;

/// A page identifier: a dense, zero-based integer naming a page's position
/// in the backing store. It is a pure value and carries no reference to the
/// store that issued it.
#[derive(Clone, Copy, Debug)]
pub struct PageID(pub u64);

impl PageID {
    pub fn to_u64(self) -> (r: u64)
        ensures
            r == self.0,
    {
        self.0
    }
}

/// Byte offset of the page named by `id`: exactly `id * PAGE_SIZE`.
pub open spec fn page_offset_spec(id: u64) -> int {
    id * (PAGE_SIZE as int)
}

/// Whether the page named by `id` lies entirely within `storage`, so that an
/// exact-length read of it can succeed.
pub open spec fn page_in_storage(storage: Seq<u8>, id: u64) -> bool {
    page_offset_spec(id) + PAGE_SIZE <= storage.len()
}

/// The `PAGE_SIZE` bytes of `storage` that belong to the page named by `id`.
pub open spec fn page_bytes(storage: Seq<u8>, id: u64) -> Seq<u8>
    recommends
        page_in_storage(storage, id),
{
    storage.subrange(page_offset_spec(id), page_offset_spec(id) + PAGE_SIZE)
}

/// The backing store after writing `data` as the page named by `id`: the
/// page's byte range holds `data`, bytes outside it are unchanged, and any
/// gap between the store's old end and the page's offset is zero-filled, as
/// a seek past the end of a sparse file followed by a write would leave it.
pub open spec fn store_after_write(storage: Seq<u8>, id: u64, data: Seq<u8>) -> Seq<u8>
    recommends
        data.len() == PAGE_SIZE,
{
    let off = page_offset_spec(id);
    let new_len = if off + PAGE_SIZE <= storage.len() {
        storage.len() as int
    } else {
        off + PAGE_SIZE
    };
    Seq::new(
        new_len as nat,
        |i: int|
            if off <= i < off + PAGE_SIZE {
                data[i - off]
            } else if i < storage.len() {
                storage[i]
            } else {
                0u8
            },
    )
}

/// The allocation counter recovered from a backing store of `len` bytes:
/// `len / PAGE_SIZE`, truncating any partial trailing page out of the
/// addressable range.
pub open spec fn initial_page_count_spec(len: int) -> int {
    len / (PAGE_SIZE as int)
}

/// The allocation counter derived from the backing store's byte length at
/// open time: integer division by `PAGE_SIZE`, so a partial trailing page is
/// silently truncated out of the addressable range.
pub fn initial_page_count(store_len: u64) -> (r: u64)
    ensures
        r == initial_page_count_spec(store_len as int),
{
    store_len / (PAGE_SIZE as u64)
}

/// Byte offset of the page named by `page_id`, or `None` when
/// `page_id * PAGE_SIZE` does not fit in a `u64`.
pub fn page_offset(page_id: PageID) -> (r: Option<u64>)
    ensures
        page_offset_spec(page_id.0) <= u64::MAX ==> r == Some(page_offset_spec(page_id.0) as u64),
        page_offset_spec(page_id.0) > u64::MAX ==> r is None,
{
    page_id.0.checked_mul(PAGE_SIZE as u64)
}

/// The in-memory allocation counter: issues page identifiers in strictly
/// increasing order, each exactly once, without touching the backing store.
pub struct PageAllocator {
    next_page_id: u64,
}

impl PageAllocator {
    /// The identifier the next `allocate` call will return.
    pub closed spec fn next_id(&self) -> u64 {
        self.next_page_id
    }

    pub fn new(next_page_id: u64) -> (r: Self)
        ensures
            r.next_id() == next_page_id,
    {
        PageAllocator { next_page_id }
    }

    /// The identifier the next `allocate` call will return, without
    /// issuing it.
    pub fn next_page_id(&self) -> (r: u64)
        ensures
            r == self.next_id(),
    {
        self.next_page_id
    }

    /// Returns the current counter value and increments the counter.
    /// Has no effect on any backing store.
    pub fn allocate(&mut self) -> (r: PageID)
        requires
            old(self).next_id() < u64::MAX,
        ensures
            r.0 == old(self).next_id(),
            final(self).next_id() == old(self).next_id() + 1,
    {
        let page_id = self.next_page_id;
        self.next_page_id = self.next_page_id + 1;
        PageID(page_id)
    }
}

/// The disk manager: owns one backing store (a flat byte container in which
/// page `n` occupies bytes `[n * PAGE_SIZE, (n + 1) * PAGE_SIZE)`) and the
/// allocation counter for identifiers into it.
pub struct DiskManager {
    heap: Vec<u8>,
    allocator: PageAllocator,
}

impl DiskManager {
    /// The bytes of the backing store.
    pub closed spec fn storage(&self) -> Seq<u8> {
        self.heap@
    }

    /// The identifier the next `allocate_page` call will return.
    pub closed spec fn next_id(&self) -> u64 {
        self.allocator.next_id()
    }

    /// Opens a disk manager over the given backing store bytes. The
    /// allocation counter is derived from the store's length, not read from
    /// any persisted field: `len / PAGE_SIZE`, truncated.
    pub fn new(heap: Vec<u8>) -> (r: Self)
        ensures
            r.storage() == heap@,
            r.next_id() == initial_page_count_spec(heap@.len() as int),
    {
        let next: u64 = (heap.len() / PAGE_SIZE) as u64;
        DiskManager { heap, allocator: PageAllocator::new(next) }
    }

    /// Consumes the manager and hands the backing store bytes back, as
    /// closing the store and keeping its persistent contents. A manager
    /// reopened over these bytes recomputes its counter from their length.
    pub fn into_storage(self) -> (r: Vec<u8>)
        ensures
            r@ == self.storage(),
    {
        self.heap
    }

    /// Returns the current counter value as a fresh page identifier and
    /// increments the counter. Writes nothing to the backing store: only the
    /// identifier is reserved.
    pub fn allocate_page(&mut self) -> (r: PageID)
        requires
            old(self).next_id() < u64::MAX,
        ensures
            r.0 == old(self).next_id(),
            final(self).next_id() == old(self).next_id() + 1,
            final(self).storage() == old(self).storage(),
    {
        self.allocator.allocate()
    }

    /// Reads the page named by `page_id` into `data`, which must hold
    /// exactly `PAGE_SIZE` bytes. Succeeds exactly when the page lies
    /// entirely within the backing store; a short read fails with `IoError`
    /// and leaves `data` unchanged rather than returning partial bytes.
    pub fn read(&mut self, page_id: PageID, data: &mut Vec<u8>) -> (r: Result<(), IoError>)
        requires
            old(data).len() == PAGE_SIZE,
        ensures
            final(self).storage() == old(self).storage(),
            final(self).next_id() == old(self).next_id(),
            r is Ok <==> page_in_storage(old(self).storage(), page_id.0),
            r is Ok ==> final(data)@ == page_bytes(old(self).storage(), page_id.0),
            r is Err ==> final(data)@ == old(data)@,
    {
        let store_len: u64 = self.heap.len() as u64;
        let end: u64 = match page_id.0.checked_mul(PAGE_SIZE as u64) {
            Some(off) => match off.checked_add(PAGE_SIZE as u64) {
                Some(end) => end,
                None => {
                    return Err(IoError);
                },
            },
            None => {
                return Err(IoError);
            },
        };
        if end > store_len {
            return Err(IoError);
        }
        proof {
            assert(end == page_offset_spec(page_id.0) + PAGE_SIZE);
            assert(page_offset_spec(page_id.0) + PAGE_SIZE <= usize::MAX);
            assert(page_id.0 <= page_id.0 * (PAGE_SIZE as int)) by (nonlinear_arith)
                requires
                    PAGE_SIZE >= 1,
            ;
            assert(page_id.0 <= usize::MAX);
        }
        let off: usize = (page_id.0 as usize) * PAGE_SIZE;
        let ghost orig = *self;
        assert(off == page_offset_spec(page_id.0));
        let mut i: usize = 0;
        while i < PAGE_SIZE
            invariant
                i <= PAGE_SIZE,
                *self == orig,
                data.len() == PAGE_SIZE,
                off == page_offset_spec(page_id.0),
                off + PAGE_SIZE <= self.heap.len(),
                forall|j: int| 0 <= j < i ==> data@[j] == orig.heap@[off + j],
            decreases PAGE_SIZE - i,
        {
            let b = self.heap[off + i];
            data.set(i, b);
            i = i + 1;
        }
        proof {
            assert(data@ =~= page_bytes(orig.heap@, page_id.0));
        }
        Ok(())
    }

    /// Writes `data`, which must hold exactly `PAGE_SIZE` bytes, as the page
    /// named by `page_id`, extending the backing store if the page's byte
    /// range lies beyond its current end (any gap is zero-filled, as a
    /// seek-past-end on a sparse file would leave it). Bytes outside the
    /// page's range are untouched.
    pub fn write(&mut self, page_id: PageID, data: &Vec<u8>) -> (r: Result<(), IoError>)
        requires
            data.len() == PAGE_SIZE,
            page_offset_spec(page_id.0) + PAGE_SIZE <= usize::MAX,
        ensures
            r is Ok,
            final(self).storage() == store_after_write(old(self).storage(), page_id.0, data@),
            final(self).next_id() == old(self).next_id(),
    {
        let off: usize = (page_id.0 as usize) * PAGE_SIZE;
        let ghost orig = *self;
        assert(off == page_offset_spec(page_id.0));
        while self.heap.len() < off
            invariant
                self.allocator == orig.allocator,
                orig.heap@.len() <= self.heap@.len(),
                self.heap@.len() <= off || self.heap@.len() == orig.heap@.len(),
                forall|j: int| 0 <= j < orig.heap@.len() ==> self.heap@[j] == orig.heap@[j],
                forall|j: int|
                    orig.heap@.len() <= j < self.heap@.len() ==> self.heap@[j] == 0u8,
            decreases off - self.heap.len(),
        {
            self.heap.push(0u8);
        }
        let ghost padded = self.heap@;
        let mut i: usize = 0;
        while i < PAGE_SIZE
            invariant
                self.allocator == orig.allocator,
                i <= PAGE_SIZE,
                data.len() == PAGE_SIZE,
                off + PAGE_SIZE <= usize::MAX,
                off <= padded.len(),
                self.heap@.len() == (if off + i <= padded.len() {
                    padded.len() as int
                } else {
                    off + i
                }),
                forall|j: int| off <= j < off + i ==> self.heap@[j] == data@[j - off],
                forall|j: int|
                    0 <= j < self.heap@.len() && !(off <= j < off + i) ==> j < padded.len()
                        && self.heap@[j] == padded[j],
            decreases PAGE_SIZE - i,
        {
            let pos = off + i;
            let b = data[i];
            if pos < self.heap.len() {
                self.heap.set(pos, b);
            } else {
                self.heap.push(b);
            }
            i = i + 1;
        }
        proof {
            let after = store_after_write(orig.heap@, page_id.0, data@);
            assert(self.heap@.len() == after.len());
            assert forall|j: int| 0 <= j < self.heap@.len() implies self.heap@[j] == after[j] by {
                if off <= j < off + PAGE_SIZE {
                } else {
                    assert(self.heap@[j] == padded[j]);
                    if j < orig.heap@.len() {
                        assert(padded[j] == orig.heap@[j]);
                    } else {
                        assert(padded[j] == 0u8);
                    }
                }
            }
            assert(self.heap@ =~= after);
        }
        Ok(())
    }
}

/// The identifiers issued by `n` successive `allocate` calls on a store
/// whose counter starts at `first`: by `allocate`'s contract, the `k`-th
/// call returns the then-current counter `first + k` and increments it.
pub open spec fn issued_ids(first: u64, n: nat) -> Seq<int> {
    Seq::new(n, |k: int| first + k)
}

/// Monotonic unique allocation: over any sequence of `allocate` calls on a
/// single store, the identifiers come out in strictly increasing order, so
/// each is returned exactly once; on a store whose counter starts at zero
/// they are exactly `0, 1, 2, ...` in call order.
pub proof fn lemma_allocation_monotonic(first: u64, n: nat)
    ensures
        forall|i: int, j: int|
            0 <= i < j < n ==> #[trigger] issued_ids(first, n)[i] < #[trigger] issued_ids(
                first,
                n,
            )[j],
        forall|i: int| 0 <= i < n ==> #[trigger] issued_ids(0u64, n)[i] == i,
{
}

/// Round trip: writing `data` as the page named by `id` and then reading
/// that page back yields exactly `data`. Since a reopened store presents
/// the same backing bytes and a read depends on those bytes alone, this
/// holds for the same store instance and for one reopened over the same
/// backing storage alike.
pub proof fn lemma_write_read_round_trip(storage: Seq<u8>, id: u64, data: Seq<u8>)
    requires
        data.len() == PAGE_SIZE,
    ensures
        page_in_storage(store_after_write(storage, id, data), id),
        page_bytes(store_after_write(storage, id, data), id) == data,
{
    assert(page_bytes(store_after_write(storage, id, data), id) =~= data);
}

/// Offset isolation, byte level: a write touches only the byte range
/// `[id * PAGE_SIZE, id * PAGE_SIZE + PAGE_SIZE)`; every byte of the store
/// outside that range keeps its old value, and the store never shrinks.
pub proof fn lemma_write_preserves_untouched_bytes(storage: Seq<u8>, id: u64, data: Seq<u8>)
    requires
        data.len() == PAGE_SIZE,
    ensures
        store_after_write(storage, id, data).len() >= storage.len(),
        forall|i: int|
            0 <= i < storage.len() && !(page_offset_spec(id) <= i < page_offset_spec(id)
                + PAGE_SIZE) ==> #[trigger] store_after_write(storage, id, data)[i] == storage[i],
{
}

/// Offset isolation, page level: writing the page named by `id` does not
/// disturb any other page that lies within the store — its bytes read back
/// unchanged.
pub proof fn lemma_write_preserves_other_pages(storage: Seq<u8>, id: u64, other: u64, data: Seq<u8>)
    requires
        data.len() == PAGE_SIZE,
        other != id,
        page_in_storage(storage, other),
    ensures
        page_in_storage(store_after_write(storage, id, data), other),
        page_bytes(store_after_write(storage, id, data), other) == page_bytes(storage, other),
{
    if other < id {
        assert(page_offset_spec(other) + PAGE_SIZE <= page_offset_spec(id));
    } else {
        assert(page_offset_spec(id) + PAGE_SIZE <= page_offset_spec(other));
    }
    assert(page_bytes(store_after_write(storage, id, data), other) =~= page_bytes(storage, other));
}

/// Durable counter recovery: a store reopened over backing bytes of length
/// `len` derives its counter as `len / PAGE_SIZE`, and every page that lies
/// entirely within those bytes has an identifier below that counter — so
/// identifiers allocated after reopening never collide with a previously
/// written page.
pub proof fn lemma_recovered_counter_clears_existing_pages(len: int, id: u64)
    requires
        0 <= len,
        page_offset_spec(id) + PAGE_SIZE <= len,
    ensures
        id < initial_page_count_spec(len),
{
    assert((id + 1) * (PAGE_SIZE as int) <= len);
    assert(id + 1 <= len / (PAGE_SIZE as int)) by (nonlinear_arith)
        requires
            PAGE_SIZE >= 1,
            (id + 1) * (PAGE_SIZE as int) <= len,
    ;
}

} // verus!
