use vstd::prelude::*;
use crate::page::{page_wf, slot_bytes, slot_count, PageError};
use crate::pool::{frame_initialized, frame_inserted, key_of, page_flushed, unpinned, BufferPool, WriteJob, INVALID_KEY};
use crate::value::{decode_tuple_spec, tuple_bytes, tuple_fits, tuple_wf, Tuple, ValueV};

verus! {

/// The pages of one file, in order.
#[derive(Debug)]
pub struct TableHeap {
    pub file_id: u32,
    pub page_ids: Vec<u32>,
}

/// What an insert asks of the caller after one page was tried.
#[derive(Debug)]
pub enum InsertAction {
    /// Pin this page and call `insert_next` again.
    Pin(u32),
    /// The tuple is in `slot` of `page_id`; write `write_back` to disk.
    Done { page_id: u32, slot: usize, write_back: Option<WriteJob> },
    /// Not even an empty page can take the tuple.
    Failed(PageError),
}

/// The page a frame holds, and that it is pinned.
pub open spec fn pinned_in(pool: BufferPool, file_id: u32, page_id: u32, frame: usize) -> bool {
    &&& frame < pool.shard(file_id, page_id).meta@.len()
    &&& pool.shard(file_id, page_id).meta@[frame as int].key == key_of(file_id, page_id)
    &&& pool.shard(file_id, page_id).meta@[frame as int].pin > 0
}

impl TableHeap {
    /// A heap whose first page, page 0, exists.
    pub fn new(file_id: u32) -> (r: TableHeap)
        ensures
            r.file_id == file_id,
            r.page_ids@ == seq![0u32],
    {
        TableHeap { file_id, page_ids: vec![0u32] }
    }

    /// A heap over the `page_count` pages a file already has.
    pub fn from_existing(file_id: u32, page_count: u32) -> (r: TableHeap)
        ensures
            r.file_id == file_id,
            r.page_ids@.len() == page_count,
            forall|i: int| 0 <= i < page_count ==> r.page_ids@[i] == i,
    {
        let mut page_ids: Vec<u32> = Vec::new();
        let mut i: u32 = 0;
        while i < page_count
            invariant
                i <= page_count,
                page_ids@.len() == i,
                forall|j: int| 0 <= j < i ==> page_ids@[j] == j,
            decreases page_count - i,
        {
            page_ids.push(i);
            i = i + 1;
        }
        TableHeap { file_id, page_ids }
    }

    /// A scan over a snapshot of the current page list.
    pub fn scan(&self) -> (r: ScanCursor)
        ensures
            r.file_id == self.file_id,
            r.snapshot@ == self.page_ids@,
            r.next == 0,
    {
        let mut snapshot: Vec<u32> = Vec::with_capacity(self.page_ids.len());
        let mut i: usize = 0;
        while i < self.page_ids.len()
            invariant
                i <= self.page_ids@.len(),
                snapshot@ == self.page_ids@.take(i as int),
            decreases self.page_ids@.len() - i,
        {
            snapshot.push(self.page_ids[i]);
            i = i + 1;
            assert(snapshot@ =~= self.page_ids@.take(i as int));
        }
        assert(self.page_ids@.take(i as int) =~= self.page_ids@);
        ScanCursor { file_id: self.file_id, snapshot, next: 0 }
    }

    /// The page an insert tries at step `cursor`: the existing pages in
    /// order, then a new page numbered after them.
    pub open spec fn target_spec(&self, cursor: int) -> u32 {
        if cursor < self.page_ids@.len() {
            self.page_ids@[cursor]
        } else {
            self.page_ids@.len() as u32
        }
    }

    pub fn target(&self, cursor: usize) -> (r: u32)
        requires
            self.page_ids@.len() < u32::MAX,
        ensures
            r == self.target_spec(cursor as int),
    {
        if cursor < self.page_ids.len() {
            self.page_ids[cursor]
        } else {
            self.page_ids.len() as u32
        }
    }

    /// One step of an insert, on the pinned page `target(*cursor)` held in
    /// `frame`. An existing page that takes the tuple ends the insert; a full
    /// one is unpinned and the next page is asked for. Past the last page a
    /// new page is initialised, receives the tuple and joins the heap. Every
    /// path unpins the page it was given.
    pub fn insert_next(&mut self, pool: &mut BufferPool, cursor: &mut usize, frame: usize, tuple: &Tuple) -> (r: InsertAction)
        requires
            old(pool).wf(),
            tuple_wf(tuple@),
            old(self).page_ids@.len() < u32::MAX - 1,
            *old(cursor) <= old(self).page_ids@.len(),
            key_of(old(self).file_id, old(self).target_spec(*old(cursor) as int)) != INVALID_KEY,
            pinned_in(*old(pool), old(self).file_id, old(self).target_spec(*old(cursor) as int), frame),
        ensures
            final(pool).wf(),
            final(self).file_id == old(self).file_id,
            ({
                let pid = old(self).target_spec(*old(cursor) as int);
                let f = old(self).file_id;
                match r {
                    InsertAction::Pin(next) => {
                        &&& *old(cursor) < old(self).page_ids@.len()
                        &&& *final(cursor) == *old(cursor) + 1
                        &&& final(self).page_ids@ == old(self).page_ids@
                        &&& next == final(self).target_spec(*final(cursor) as int)
                        &&& old(pool).others_same(final(pool), f, pid)
                        &&& exists|mid: crate::pool::Shard| #[trigger] frame_inserted(
                            old(pool).shard(f, pid),
                            mid,
                            frame,
                            tuple@,
                            Err(PageError::Full),
                        ) && unpinned(mid, final(pool).shard(f, pid), key_of(f, pid), false)
                    },
                    InsertAction::Done { page_id, slot, write_back } => {
                        &&& page_id == pid
                        &&& (*old(cursor) < old(self).page_ids@.len() ==> final(self).page_ids@
                            == old(self).page_ids@)
                        &&& (*old(cursor) == old(self).page_ids@.len() ==> final(self).page_ids@
                            == old(self).page_ids@.push(pid))
                        &&& old(pool).others_same(final(pool), f, pid)
                        &&& slot_bytes(
                            final(pool).shard(f, pid).bufs@[frame as int]@,
                            slot as int,
                        ) == tuple_bytes(tuple@)
                        &&& (*old(cursor) < old(self).page_ids@.len() ==> {
                            &&& write_back.is_none()
                            &&& exists|mid: crate::pool::Shard| #[trigger] frame_inserted(
                                old(pool).shard(f, pid),
                                mid,
                                frame,
                                tuple@,
                                Ok(slot),
                            ) && unpinned(mid, final(pool).shard(f, pid), key_of(f, pid), true)
                        })
                        &&& (*old(cursor) == old(self).page_ids@.len() ==> exists|m1: crate::pool::Shard, m2: crate::pool::Shard, m3: crate::pool::Shard|
                            #[trigger] frame_initialized(old(pool).shard(f, pid), m1, frame) && #[trigger] frame_inserted(m1, m2, frame, tuple@, Ok(slot))
                                && #[trigger] unpinned(m2, m3, key_of(f, pid), true) && page_flushed(m3, final(pool).shard(f, pid), key_of(f, pid), write_back))
                    },
                    InsertAction::Failed(e) => {
                        &&& *old(cursor) == old(self).page_ids@.len()
                        &&& final(self).page_ids@ == old(self).page_ids@
                        &&& old(pool).others_same(final(pool), f, pid)
                        &&& exists|m1: crate::pool::Shard, m2: crate::pool::Shard|
                            #[trigger] frame_initialized(old(pool).shard(f, pid), m1, frame) && #[trigger] frame_inserted(m1, m2, frame, tuple@, Err(e))
                                && unpinned(m2, final(pool).shard(f, pid), key_of(f, pid), false)
                    },
                }
            }),
    {
        let pid = self.target(*cursor);
        let f = self.file_id;
        if *cursor < self.page_ids.len() {
            let ghost p0 = *pool;
            match pool.insert_into(f, pid, frame, tuple) {
                Ok(slot) => {
                    let ghost p1 = *pool;
                    pool.unpin(f, pid, true);
                    proof {
                        assert(frame_inserted(p0.shard(f, pid), p1.shard(f, pid), frame, tuple@, Ok(slot)));
                    }
                    InsertAction::Done { page_id: pid, slot, write_back: None }
                },
                Err(_) => {
                    let ghost mid = pool.shard(f, pid);
                    pool.unpin(f, pid, false);
                    assert(frame_inserted(p0.shard(f, pid), mid, frame, tuple@, Err(PageError::Full)));
                    *cursor = *cursor + 1;
                    InsertAction::Pin(self.target(*cursor))
                },
            }
        } else {
            let ghost p0 = *pool;
            pool.init_page(f, pid, frame);
            let ghost pa = *pool;
            match pool.insert_into(f, pid, frame, tuple) {
                Ok(slot) => {
                    let ghost p1 = *pool;
                    self.page_ids.push(pid);
                    let write_back = pool.unpin_and_flush(f, pid, true);
                    proof {
                        let mid = choose|mid: crate::pool::Shard|
                            #[trigger] unpinned(p1.shard(f, pid), mid, key_of(f, pid), true)
                                && page_flushed(mid, pool.shard(f, pid), key_of(f, pid), write_back);
                        assert(mid.bufs@ == p1.shard(f, pid).bufs@);
                        assert(frame_initialized(p0.shard(f, pid), pa.shard(f, pid), frame));
                        assert(frame_inserted(pa.shard(f, pid), p1.shard(f, pid), frame, tuple@, Ok(slot)));
                    }
                    InsertAction::Done { page_id: pid, slot, write_back }
                },
                Err(e) => {
                    let ghost p1 = *pool;
                    pool.unpin(f, pid, false);
                    proof {
                        assert(frame_initialized(p0.shard(f, pid), pa.shard(f, pid), frame));
                        assert(frame_inserted(pa.shard(f, pid), p1.shard(f, pid), frame, tuple@, Err(e)));
                    }
                    InsertAction::Failed(e)
                },
            }
        }
    }
}

/// The decoded rows of a page, in slot order.
pub open spec fn page_rows(d: Seq<u8>) -> Seq<Option<Seq<ValueV>>> {
    Seq::new(slot_count(d) as nat, |i: int| decode_tuple_spec(slot_bytes(d, i)))
}

/// `rows` are the decoded rows of page `d`, in slot order.
pub open spec fn rows_of(rows: Seq<Seq<ValueV>>, d: Seq<u8>) -> bool {
    &&& rows.len() == slot_count(d)
    &&& forall|i: int| 0 <= i < rows.len() ==> page_rows(d)[i] == Some(#[trigger] rows[i])
}

/// A scan over a snapshot of a heap's page list.
pub struct ScanCursor {
    pub file_id: u32,
    pub snapshot: Vec<u32>,
    pub next: usize,
}

impl ScanCursor {
    /// The page to pin next, if the scan has one left.
    pub fn next_page(&self) -> (r: Option<u32>)
        ensures
            self.next < self.snapshot@.len() ==> r == Some(self.snapshot@[self.next as int]),
            self.next >= self.snapshot@.len() ==> r.is_none(),
    {
        if self.next < self.snapshot.len() {
            Some(self.snapshot[self.next])
        } else {
            None
        }
    }

    /// Reads slots `0..N` of the pinned page `next_page()` held in `frame`,
    /// unpins it and moves on; `None` when a slot does not decode.
    pub fn scan_page(&mut self, pool: &mut BufferPool, frame: usize) -> (r: Option<Vec<Tuple>>)
        requires
            old(pool).wf(),
            old(self).next < old(self).snapshot@.len(),
            key_of(old(self).file_id, old(self).snapshot@[old(self).next as int]) != INVALID_KEY,
            pinned_in(*old(pool), old(self).file_id, old(self).snapshot@[old(self).next as int], frame),
        ensures
            final(pool).wf(),
            final(self).file_id == old(self).file_id,
            final(self).snapshot@ == old(self).snapshot@,
            final(self).next == old(self).next + 1,
            ({
                let f = old(self).file_id;
                let pid = old(self).snapshot@[old(self).next as int];
                let d = old(pool).shard(f, pid).bufs@[frame as int]@;
                &&& old(pool).others_same(final(pool), f, pid)
                &&& unpinned(old(pool).shard(f, pid), final(pool).shard(f, pid), key_of(f, pid), false)
                &&& r matches Some(rows) ==> rows_of(rows@.map_values(|t: Tuple| t@), d)
                &&& (page_wf(d) && forall|i: int| 0 <= i < slot_count(d) ==> (#[trigger] page_rows(d)[i]).is_some()) ==> r.is_some()
            }),
    {
        let f = self.file_id;
        let pid = self.snapshot[self.next];
        let ghost d = pool.shard(f, pid).bufs@[frame as int]@;
        let n = pool.slot_count(f, pid, frame);
        let mut rows: Vec<Tuple> = Vec::new();
        let mut i: usize = 0;
        let mut ok = true;
        while i < n && ok
            invariant
                pool.wf(),
                *pool == *old(pool),
                d == pool.shard(f, pid).bufs@[frame as int]@,
                frame < pool.shard(f, pid).bufs@.len(),
                n == slot_count(d),
                i <= n,
                ok ==> rows@.len() == i,
                ok ==> forall|j: int| 0 <= j < i ==> page_rows(d)[j] == Some(#[trigger] rows@[j]@),
                !ok ==> !(page_wf(d) && forall|j: int| 0 <= j < slot_count(d) ==> (#[trigger] page_rows(d)[j]).is_some()),
            decreases n - i + (if ok { 1int } else { 0int }),
        {
            match pool.get_tuple(f, pid, frame, i) {
                Some(t) => {
                    proof {
                        if crate::page::slot_offset(d, i as int) + crate::page::slot_length(d, i as int) > crate::page::PAGE_SIZE {
                            assert(!page_wf(d));
                        }
                    }
                    rows.push(t);
                    i = i + 1;
                },
                None => {
                    proof {
                        if page_wf(d) {
                            assert(page_rows(d)[i as int].is_none());
                        }
                    }
                    ok = false;
                },
            }
        }
        pool.unpin(f, pid, false);
        let _len = self.snapshot.len();
        self.next = self.next + 1;
        if ok {
            proof {
                assert(rows@.map_values(|t: Tuple| t@).len() == slot_count(d));
            }
            Some(rows)
        } else {
            None
        }
    }
}

/// Rows read page by page, concatenated.
pub open spec fn concat_rows(parts: Seq<Seq<Seq<ValueV>>>) -> Seq<Seq<ValueV>>
    decreases parts.len(),
{
    if parts.len() == 0 {
        Seq::empty()
    } else {
        concat_rows(parts.drop_last()) + parts.last()
    }
}

/// The rows of the pages `pages`, in page order and slot order within a
/// page, when every slot decodes.
pub open spec fn heap_rows(pages: Seq<Seq<u8>>) -> Seq<Seq<ValueV>>
    decreases pages.len(),
{
    if pages.len() == 0 {
        Seq::empty()
    } else {
        heap_rows(pages.drop_last()) + page_rows(pages.last()).map_values(|o: Option<Seq<ValueV>>| o.unwrap())
    }
}

/// A scan that reads the snapshot's pages in order emits the concatenation
/// of each page's rows `0..N`, in page order.
pub proof fn lemma_scan_order(pages: Seq<Seq<u8>>, parts: Seq<Seq<Seq<ValueV>>>)
    requires
        parts.len() == pages.len(),
        forall|k: int| 0 <= k < parts.len() ==> rows_of(#[trigger] parts[k], pages[k]),
    ensures
        concat_rows(parts) == heap_rows(pages),
    decreases pages.len(),
{
    if pages.len() > 0 {
        let k = pages.len() - 1;
        assert(rows_of(parts[k], pages[k]));
        lemma_scan_order(pages.drop_last(), parts.drop_last());
        let last = page_rows(pages.last()).map_values(|o: Option<Seq<ValueV>>| o.unwrap());
        assert(parts.last() =~= last) by {
            assert forall|i: int| 0 <= i < last.len() implies parts.last()[i] == last[i] by {
                assert(page_rows(pages[k])[i] == Some(parts[k][i]));
            }
        }
    }
}

} // verus!
