use vstd::prelude::*;
use crate::page::{
    repaired, empty_page, fits_in, free_ptr, header_valid, page_tuples, page_wf, slot_bytes, slot_count,
    slot_length, slot_offset, Page,
    PageError, PAGE_SIZE,
};
use crate::value::{decode_tuple_spec, read_u16, tuple_bytes, tuple_fits, tuple_wf, Tuple, ValueV};

verus! {

/// Shards in a pool made by [`BufferPool::new`].
pub const DEFAULT_SHARD_COUNT: usize = 4;

/// Frames per shard in a pool made by [`BufferPool::new`].
pub const DEFAULT_SLOTS_PER_SHARD: usize = 1024;

/// The most frames one shard can have.
pub const MAX_SLOTS_PER_SHARD: usize = 0x1000_0000;

/// The key of a frame that holds no page.
pub const INVALID_KEY: u64 = u64::MAX;

/// The pin value of a frame whose page is being replaced.
pub const EVICTING: usize = usize::MAX;

/// The key of a page: file id in the high half, page id in the low half.
pub open spec fn key_of(file_id: u32, page_id: u32) -> u64 {
    (file_id as int * 0x1_0000_0000 + page_id as int) as u64
}

pub open spec fn key_file(key: u64) -> u32 {
    (key as int / 0x1_0000_0000) as u32
}

pub open spec fn key_page(key: u64) -> u32 {
    (key as int % 0x1_0000_0000) as u32
}

/// The shard that holds a page: `(file_id XOR page_id) mod shards`.
pub open spec fn shard_of(file_id: u32, page_id: u32, shards: nat) -> int {
    (file_id ^ page_id) as int % shards as int
}

pub open spec fn shard_of_key(key: u64, shards: nat) -> int {
    shard_of(key_file(key), key_page(key), shards)
}

pub fn make_key(file_id: u32, page_id: u32) -> (r: u64)
    ensures
        r == key_of(file_id, page_id),
        key_file(r) == file_id,
        key_page(r) == page_id,
{
    (file_id as u64) * 0x1_0000_0000 + (page_id as u64)
}

/// Metadata of one frame.
#[derive(Clone, Copy, Debug, PartialEq, Eq, Structural)]
pub struct FrameMeta {
    pub key: u64,
    pub pin: usize,
    pub ref_bit: bool,
    pub dirty: bool,
}

/// The bytes of a page to be written back to its file.
#[derive(Clone, Debug)]
pub struct WriteJob {
    pub file_id: u32,
    pub page_id: u32,
    pub data: Vec<u8>,
}

/// What a request for a page needs from the caller.
#[derive(Debug)]
pub enum Fetch {
    /// The page is resident in this frame, and now pinned.
    Hit(usize),
    /// The frame was chosen for the page and is reserved for it: write
    /// `write_back` to disk if present, read the page and hand it to
    /// `complete_load`.
    Load { frame: usize, write_back: Option<WriteJob> },
    /// No frame can take the page now: yield and ask again.
    Busy,
}

pub open spec fn pins(m: Seq<FrameMeta>) -> Seq<usize> {
    m.map_values(|f: FrameMeta| f.pin)
}

/// Two frames that differ at most in their reference bit.
pub open spec fn same_but_ref(a: FrameMeta, b: FrameMeta) -> bool {
    a.key == b.key && a.pin == b.pin && a.dirty == b.dirty
}

pub open spec fn holds_key(m: Seq<FrameMeta>, key: u64) -> bool {
    exists|i: int| 0 <= i < m.len() && #[trigger] m[i].key == key
}

/// The effect of a pin on a resident page.
pub open spec fn acquired(m0: Seq<FrameMeta>, m1: Seq<FrameMeta>, i: int, key: u64) -> bool {
    &&& 0 <= i < m0.len()
    &&& m0[i].key == key
    &&& m0[i].pin < EVICTING - 1
    &&& m1 == m0.update(i, FrameMeta { pin: (m0[i].pin + 1) as usize, ref_bit: true, ..m0[i] })
}

/// The effect of an unpin of the page with `key`, flagged `dirty` or not.
pub open spec fn released(m0: Seq<FrameMeta>, m1: Seq<FrameMeta>, key: u64, dirty: bool) -> bool {
    if exists|i: int| 0 <= i < m0.len() && m0[i].key == key && 0 < m0[i].pin < EVICTING {
        exists|i: int|
            0 <= i < m0.len() && m0[i].key == key && 0 < m0[i].pin < EVICTING && (forall|j: int|
                0 <= j < m0.len() && j != i ==> m0[j].key != key) && m1 == m0.update(
                i,
                FrameMeta {
                    pin: (m0[i].pin - 1) as usize,
                    dirty: m0[i].dirty || (dirty && m0[i].pin == 1),
                    ..m0[i]
                },
            )
    } else {
        m1 == m0
    }
}

/// The frames below `n` that hold a dirty page, in order.
pub open spec fn dirty_frames(m: Seq<FrameMeta>, n: int) -> Seq<int>
    decreases n,
{
    if n <= 0 {
        Seq::empty()
    } else if m[n - 1].key != INVALID_KEY && m[n - 1].dirty {
        dirty_frames(m, n - 1).push(n - 1)
    } else {
        dirty_frames(m, n - 1)
    }
}

/// `jobs` writes back, in order, each dirty page of the frames below `n`.
pub open spec fn jobs_for(jobs: Seq<WriteJob>, m: Seq<FrameMeta>, bufs: Seq<Vec<u8>>, n: int) -> bool {
    &&& jobs.len() == dirty_frames(m, n).len()
    &&& forall|w: int|
        0 <= w < jobs.len() ==> key_of(#[trigger] jobs[w].file_id, jobs[w].page_id)
            == m[dirty_frames(m, n)[w]].key && jobs[w].data@ == bufs[dirty_frames(m, n)[w]]@
}

/// What `Page::insert_tuple` does to a page's bytes, from `d0` to `d1`.
pub open spec fn inserted(d0: Seq<u8>, d1: Seq<u8>, t: Seq<ValueV>, r: Result<usize, PageError>) -> bool {
    &&& header_valid(d1)
    &&& r.is_ok() == fits_in(d0, tuple_bytes(t).len() as int)
    &&& r.is_err() ==> d1 == d0
    &&& r matches Ok(k) ==> {
        &&& k == slot_count(d0)
        &&& slot_count(d1) == k + 1
        &&& free_ptr(d1) == free_ptr(d0) - tuple_bytes(t).len()
        &&& slot_bytes(d1, k as int) == tuple_bytes(t)
        &&& crate::page::slot_offset(d1, k as int) == free_ptr(d0) - tuple_bytes(t).len()
        &&& crate::page::slot_length(d1, k as int) == tuple_bytes(t).len()
        &&& forall|i: int|
            4 <= i < PAGE_SIZE && !(4 + 4 * k <= i < 8 + 4 * k) && !(free_ptr(d0) - tuple_bytes(t).len() <= i < free_ptr(d0))
                ==> #[trigger] d1[i] == d0[i]
        &&& (page_wf(d0) ==> page_wf(d1) && page_tuples(d1) == page_tuples(d0).push(tuple_bytes(t)))
    }
}

/// What `Shard::get_page` does, from `s0` to `s1`, returning `r`.
pub open spec fn fetched(s0: Shard, s1: Shard, key: u64, r: Fetch) -> bool {
    &&& s1.wf()
    &&& s1.id == s0.id
    &&& s1.shard_count == s0.shard_count
    &&& s1.bufs@ == s0.bufs@
    &&& s1.meta@.len() == s0.meta@.len()
    &&& match r {
        Fetch::Hit(i) => acquired(s0.meta@, s1.meta@, i as int, key),
        Fetch::Load { frame, write_back } => {
            let i = frame as int;
            let m = s0.meta@[i];
            &&& 0 <= i < s0.meta@.len()
            &&& !holds_key(s0.meta@, key)
            &&& m.pin == 0
            &&& (!m.ref_bit || forall|j: int| 0 <= j < s0.meta@.len() && s0.meta@[j].pin == 0 ==> !(#[trigger] s1.meta@[j]).ref_bit)
            &&& s1.meta@[i] == (FrameMeta { key, pin: EVICTING, ref_bit: false, dirty: false })
            &&& forall|j: int|
                0 <= j < s0.meta@.len() && j != i ==> same_but_ref(s0.meta@[j], #[trigger] s1.meta@[j])
            &&& write_back.is_some() == (m.key != INVALID_KEY && m.dirty)
            &&& write_back matches Some(w) ==> key_of(w.file_id, w.page_id) == m.key && w.data@
                == s0.bufs@[i]@
        },
        Fetch::Busy => {
            &&& forall|j: int|
                0 <= j < s0.meta@.len() ==> same_but_ref(s0.meta@[j], #[trigger] s1.meta@[j])
            &&& ((exists|j: int| 0 <= j < s0.meta@.len() && (#[trigger] s0.meta@[j]).key == key && s0.meta@[j].pin >= EVICTING - 1)
                || (!holds_key(s0.meta@, key) && forall|j: int| 0 <= j < s0.meta@.len() ==> (#[trigger] s0.meta@[j]).pin != 0))
        },
    }
}

/// Position `j` is among the `n` frames that the hand passes from `h0`,
/// wrapping at `k`.
pub open spec fn in_window(j: int, h0: int, n: int, k: int) -> bool {
    (h0 <= j < h0 + n) || (j + k < h0 + n)
}

/// The hand after `s` steps from `h0`, for at most two revolutions.
pub open spec fn hand_after(h0: int, s: int, k: int) -> int {
    if h0 + s < k {
        h0 + s
    } else if h0 + s < 2 * k {
        h0 + s - k
    } else {
        h0 + s - 2 * k
    }
}

/// What `Shard::complete_load` does, from `s0` to `s1`.
pub open spec fn loaded(s0: Shard, s1: Shard, frame: usize, data: Option<Vec<u8>>) -> bool {
    &&& s1.wf()
    &&& s1.id == s0.id
    &&& s1.shard_count == s0.shard_count
    &&& s1.meta@ == s0.meta@.update(
        frame as int,
        FrameMeta { pin: 1, ref_bit: true, dirty: false, ..s0.meta@[frame as int] },
    )
    &&& forall|j: int|
        0 <= j < s0.bufs@.len() && j != frame ==> #[trigger] s1.bufs@[j] == s0.bufs@[j]
    &&& match data {
        Some(d) => if d@.len() == PAGE_SIZE && header_valid(repaired(d@)) {
            s1.bufs@[frame as int]@ == repaired(d@)
        } else {
            crate::page::empty_page(s1.bufs@[frame as int]@)
        },
        None => crate::page::empty_page(s1.bufs@[frame as int]@),
    }
}

/// What `Shard::unpin` does, from `s0` to `s1`.
pub open spec fn unpinned(s0: Shard, s1: Shard, key: u64, is_dirty: bool) -> bool {
    &&& s1.wf()
    &&& s1.id == s0.id
    &&& s1.shard_count == s0.shard_count
    &&& s1.bufs@ == s0.bufs@
    &&& released(s0.meta@, s1.meta@, key, is_dirty)
}

/// What `Shard::flush_page` does, from `s0` to `s1`, returning `r`.
pub open spec fn page_flushed(s0: Shard, s1: Shard, key: u64, r: Option<WriteJob>) -> bool {
    &&& s1.wf()
    &&& s1.id == s0.id
    &&& s1.shard_count == s0.shard_count
    &&& s1.bufs@ == s0.bufs@
    &&& r.is_some() == exists|i: int|
        0 <= i < s0.meta@.len() && s0.meta@[i].key == key && s0.meta@[i].dirty
    &&& match r {
        Some(w) => exists|i: int|
            0 <= i < s0.meta@.len() && s0.meta@[i].key == key && key_of(w.file_id, w.page_id) == key
                && w.data@ == s0.bufs@[i]@ && s1.meta@ == s0.meta@.update(
                i,
                FrameMeta { dirty: false, ..s0.meta@[i] },
            ),
        None => s1.meta@ == s0.meta@,
    }
}

/// What `Shard::flush_all` does, from `s0` to `s1`, returning `r`.
pub open spec fn all_flushed(s0: Shard, s1: Shard, r: Seq<WriteJob>) -> bool {
    &&& s1.wf()
    &&& s1.id == s0.id
    &&& s1.shard_count == s0.shard_count
    &&& s1.bufs@ == s0.bufs@
    &&& s1.meta@.len() == s0.meta@.len()
    &&& forall|i: int|
        0 <= i < s0.meta@.len() ==> #[trigger] s1.meta@[i] == (if s0.meta@[i].key != INVALID_KEY {
            FrameMeta { dirty: false, ..s0.meta@[i] }
        } else {
            s0.meta@[i]
        })
    &&& jobs_for(r, s0.meta@, s0.bufs@, s0.meta@.len() as int)
}

/// What `Shard::insert_into` does, from `s0` to `s1`, returning `r`.
pub open spec fn frame_inserted(s0: Shard, s1: Shard, frame: usize, t: Seq<ValueV>, r: Result<usize, PageError>) -> bool {
    &&& s1.wf()
    &&& s1.id == s0.id
    &&& s1.shard_count == s0.shard_count
    &&& s1.meta@ == s0.meta@
    &&& s1.bufs@.len() == s0.bufs@.len()
    &&& forall|j: int|
        0 <= j < s0.bufs@.len() && j != frame ==> #[trigger] s1.bufs@[j] == s0.bufs@[j]
    &&& inserted(s0.bufs@[frame as int]@, s1.bufs@[frame as int]@, t, r)
}

/// What `Shard::init_frame` does, from `s0` to `s1`.
pub open spec fn frame_initialized(s0: Shard, s1: Shard, frame: usize) -> bool {
    &&& s1.wf()
    &&& s1.id == s0.id
    &&& s1.shard_count == s0.shard_count
    &&& s1.meta@ == s0.meta@
    &&& s1.bufs@.len() == s0.bufs@.len()
    &&& forall|j: int|
        0 <= j < s0.bufs@.len() && j != frame ==> #[trigger] s1.bufs@[j] == s0.bufs@[j]
    &&& empty_page(s1.bufs@[frame as int]@)
    &&& page_wf(s1.bufs@[frame as int]@)
}

/// One shard of the pool: its frames, their page buffers and a clock hand.
pub struct Shard {
    pub id: usize,
    pub shard_count: usize,
    pub meta: Vec<FrameMeta>,
    pub bufs: Vec<Vec<u8>>,
    pub hand: usize,
}

impl Shard {
    /// Frames and buffers agree in number, every buffer holds a valid page
    /// header, every resident page belongs to this shard, and no page is
    /// resident twice.
    pub open spec fn wf(&self) -> bool {
        &&& self.shard_count > 0
        &&& self.id < self.shard_count
        &&& 0 < self.meta@.len() <= MAX_SLOTS_PER_SHARD
        &&& self.bufs@.len() == self.meta@.len()
        &&& self.hand < self.meta@.len()
        &&& forall|i: int| 0 <= i < self.bufs@.len() ==> header_valid(#[trigger] self.bufs@[i]@)
        &&& forall|i: int|
            0 <= i < self.meta@.len() && #[trigger] self.meta@[i].key != INVALID_KEY ==> shard_of_key(
                self.meta@[i].key,
                self.shard_count as nat,
            ) == self.id
        &&& forall|i: int, j: int|
            0 <= i < self.meta@.len() && 0 <= j < self.meta@.len() && i != j
                && #[trigger] self.meta@[i].key != INVALID_KEY ==> self.meta@[i].key
                != #[trigger] self.meta@[j].key
    }

    pub fn new(id: usize, shard_count: usize, slots: usize) -> (r: Shard)
        requires
            id < shard_count,
            0 < slots <= MAX_SLOTS_PER_SHARD,
        ensures
            r.wf(),
            r.id == id,
            r.shard_count == shard_count,
            r.meta@.len() == slots,
            forall|i: int|
                0 <= i < slots ==> #[trigger] r.meta@[i] == (FrameMeta {
                    key: INVALID_KEY,
                    pin: 0,
                    ref_bit: false,
                    dirty: false,
                }),
    {
        let mut meta: Vec<FrameMeta> = Vec::with_capacity(slots);
        let mut bufs: Vec<Vec<u8>> = Vec::with_capacity(slots);
        let mut i: usize = 0;
        while i < slots
            invariant
                i <= slots,
                meta@.len() == i,
                bufs@.len() == i,
                forall|j: int| 0 <= j < i ==> header_valid(#[trigger] bufs@[j]@),
                forall|j: int|
                    0 <= j < i ==> #[trigger] meta@[j] == (FrameMeta {
                        key: INVALID_KEY,
                        pin: 0,
                        ref_bit: false,
                        dirty: false,
                    }),
            decreases slots - i,
        {
            meta.push(FrameMeta { key: INVALID_KEY, pin: 0, ref_bit: false, dirty: false });
            let page = Page::new(0);
            bufs.push(page.data);
            i = i + 1;
        }
        Shard { id, shard_count, meta, bufs, hand: 0 }
    }

    /// The first frame whose key is `key`.
    fn find(&self, key: u64) -> (r: Option<usize>)
        ensures
            match r {
                Some(i) => i < self.meta@.len() && self.meta@[i as int].key == key && forall|j: int|
                    0 <= j < i ==> self.meta@[j].key != key,
                None => !holds_key(self.meta@, key),
            },
    {
        let mut i: usize = 0;
        while i < self.meta.len()
            invariant
                i <= self.meta@.len(),
                forall|j: int| 0 <= j < i ==> self.meta@[j].key != key,
            decreases self.meta@.len() - i,
        {
            if self.meta[i].key == key {
                return Some(i);
            }
            i = i + 1;
        }
        None
    }

    /// Asks for the page with `key`: a hit pins it; otherwise the clock hand
    /// sweeps for an unpinned frame whose reference bit is clear, clearing
    /// set bits as it passes, for at most two revolutions.
    pub fn get_page(&mut self, key: u64) -> (r: Fetch)
        requires
            old(self).wf(),
            key != INVALID_KEY,
            shard_of_key(key, old(self).shard_count as nat) == old(self).id,
        ensures
            fetched(*old(self), *final(self), key, r),
    {
        let k = self.meta.len();
        match self.find(key) {
            Some(i) => {
                let m = self.meta[i];
                if m.pin >= EVICTING - 1 {
                    return Fetch::Busy;
                }
                self.meta.set(i, FrameMeta { pin: m.pin + 1, ref_bit: true, ..m });
                return Fetch::Hit(i);
            },
            None => {},
        }
        let ghost m0 = self.meta@;
        let ghost h0 = self.hand as int;
        let mut victim: Option<usize> = None;
        let mut steps: usize = 0;
        while steps < 2 * k && victim.is_none()
            invariant
                0 <= h0 < k,
                steps <= 2 * k,
                victim.is_none() ==> self.hand as int == hand_after(h0, steps as int, k as int),
                victim.is_none() ==> forall|j: int|
                    0 <= j < k && in_window(j, h0, if steps < k { steps as int } else { k as int }, k as int)
                        && m0[j].pin == 0 ==> !(#[trigger] self.meta@[j]).ref_bit,
                victim.is_none() ==> forall|j: int|
                    0 <= j < k && !in_window(j, h0, if steps < k { steps as int } else { k as int }, k as int)
                        ==> (#[trigger] self.meta@[j]).ref_bit == m0[j].ref_bit,
                victim matches Some(v) ==> (!m0[v as int].ref_bit || forall|j: int|
                    0 <= j < k && m0[j].pin == 0 ==> !(#[trigger] self.meta@[j]).ref_bit),
                victim.is_none() && steps > k ==> forall|j: int|
                    0 <= j < k && in_window(j, h0, steps - k, k as int) ==> (#[trigger] m0[j]).pin != 0,
                self.wf(),
                self.id == old(self).id,
                self.shard_count == old(self).shard_count,
                self.bufs@ == old(self).bufs@,
                self.meta@.len() == k,
                k == m0.len(),
                k <= MAX_SLOTS_PER_SHARD,
                m0 == old(self).meta@,
                !holds_key(m0, key),
                forall|j: int| 0 <= j < k ==> same_but_ref(m0[j], #[trigger] self.meta@[j]),
                victim matches Some(v) ==> v < k && self.meta@[v as int].pin == 0,
            decreases 2 * k - steps + (if victim.is_none() { 1int } else { 0int }),
        {
            let c = self.hand;
            self.hand = if c + 1 == k { 0 } else { c + 1 };
            let m = self.meta[c];
            proof {
                assert(same_but_ref(m0[c as int], self.meta@[c as int]));
                if steps >= k {
                    assert(in_window(c as int, h0, k as int, k as int));
                }
            }
            if m.pin == 0 {
                if m.ref_bit {
                    self.meta.set(c, FrameMeta { ref_bit: false, ..m });
                    assert forall|i: int, j: int|
                        0 <= i < self.meta@.len() && 0 <= j < self.meta@.len() && i != j
                            && #[trigger] self.meta@[i].key != INVALID_KEY implies self.meta@[i].key
                        != #[trigger] self.meta@[j].key by {
                        assert(old(self).meta@[i].key == m0[i].key);
                    }
                } else {
                    victim = Some(c);
                }
            }
            steps = steps + 1;
        }
        match victim {
            None => {
                proof {
                    assert forall|j: int| 0 <= j < k implies (#[trigger] m0[j]).pin != 0 by {
                        assert(in_window(j, h0, k as int, k as int));
                    }
                }
                Fetch::Busy
            },
            Some(v) => {
                let m = self.meta[v];
                let write_back = if m.key != INVALID_KEY && m.dirty {
                    Some(
                        WriteJob {
                            file_id: (m.key / 0x1_0000_0000) as u32,
                            page_id: (m.key % 0x1_0000_0000) as u32,
                            data: self.bufs[v].clone(),
                        },
                    )
                } else {
                    None
                };
                self.meta.set(v, FrameMeta { key, pin: EVICTING, ref_bit: false, dirty: false });
                proof {
                    assert forall|j: int| 0 <= j < k && j != v implies same_but_ref(
                        m0[j],
                        #[trigger] self.meta@[j],
                    ) by {}
                    assert forall|i: int, j: int|
                        0 <= i < self.meta@.len() && 0 <= j < self.meta@.len() && i != j
                            && #[trigger] self.meta@[i].key != INVALID_KEY implies self.meta@[i].key
                        != #[trigger] self.meta@[j].key by {
                        if i != v && j != v {
                            assert(m0[i].key == self.meta@[i].key);
                            assert(m0[j].key == self.meta@[j].key);
                        } else if i == v {
                            assert(m0[j].key != key);
                        } else {
                            assert(m0[i].key != key);
                        }
                    }
                }
                Fetch::Load { frame: v, write_back }
            },
        }
    }

    /// Installs the bytes read for the page reserved in `frame`, or a zeroed
    /// page when the read gave none (the file is shorter); the page is then
    /// pinned once.
    pub fn complete_load(&mut self, frame: usize, data: Option<Vec<u8>>)
        requires
            old(self).wf(),
            frame < old(self).meta@.len(),
            old(self).meta@[frame as int].pin == EVICTING,
        ensures
            loaded(*old(self), *final(self), frame, data),
    {
        let m = self.meta[frame];
        let page = match data {
            Some(d) => {
                if d.len() == PAGE_SIZE {
                    let p = Page::from_bytes(0, d);
                    if p.has_valid_header() {
                        p
                    } else {
                        Page::new(0)
                    }
                } else {
                    Page::new(0)
                }
            },
            None => Page::new(0),
        };
        let mut buf = page.data;
        self.bufs.set_and_swap(frame, &mut buf);
        self.meta.set(frame, FrameMeta { pin: 1, ref_bit: true, dirty: false, ..m });
        proof {
            assert forall|i: int, j: int|
                0 <= i < self.meta@.len() && 0 <= j < self.meta@.len() && i != j
                    && #[trigger] self.meta@[i].key != INVALID_KEY implies self.meta@[i].key
                != #[trigger] self.meta@[j].key by {
                assert(old(self).meta@[i].key == self.meta@[i].key);
                assert(old(self).meta@[j].key == self.meta@[j].key);
            }
        }
    }

    /// Drops one pin of the page with `key`. The frame becomes dirty when
    /// `is_dirty` is set and this was its last pin.
    pub fn unpin(&mut self, key: u64, is_dirty: bool)
        requires
            old(self).wf(),
            key != INVALID_KEY,
        ensures
            unpinned(*old(self), *final(self), key, is_dirty),
    {
        match self.find(key) {
            None => {},
            Some(i) => {
                let m = self.meta[i];
                proof {
                    assert(forall|j: int|
                        0 <= j < old(self).meta@.len() && j != i ==> old(self).meta@[j].key != key);
                }
                if m.pin > 0 && m.pin < EVICTING {
                    self.meta.set(
                        i,
                        FrameMeta { pin: m.pin - 1, dirty: m.dirty || (is_dirty && m.pin == 1), ..m },
                    );
                    proof {
                        assert(forall|j: int|
                            0 <= j < old(self).meta@.len() && j != i ==> old(self).meta@[j].key != key);
                        let ii = i as int;
                        assert(0 <= ii < old(self).meta@.len() && old(self).meta@[ii].key == key && 0
                            < old(self).meta@[ii].pin < EVICTING);
                        assert forall|i2: int, j: int|
                            0 <= i2 < self.meta@.len() && 0 <= j < self.meta@.len() && i2 != j
                                && #[trigger] self.meta@[i2].key != INVALID_KEY implies self.meta@[i2].key
                            != #[trigger] self.meta@[j].key by {
                            assert(old(self).meta@[i2].key == self.meta@[i2].key);
                            assert(old(self).meta@[j].key == self.meta@[j].key);
                        }
                    }
                }
            },
        }
    }

    /// Clears the dirty bit of the page with `key` and hands out its bytes,
    /// if it was dirty.
    pub fn flush_page(&mut self, key: u64) -> (r: Option<WriteJob>)
        requires
            old(self).wf(),
            key != INVALID_KEY,
        ensures
            page_flushed(*old(self), *final(self), key, r),
    {
        match self.find(key) {
            None => None,
            Some(i) => {
                let m = self.meta[i];
                proof {
                    assert(forall|j: int|
                        0 <= j < old(self).meta@.len() && j != i ==> old(self).meta@[j].key != key);
                }
                if m.dirty {
                    self.meta.set(i, FrameMeta { dirty: false, ..m });
                    proof {
                        assert forall|i2: int, j: int|
                            0 <= i2 < self.meta@.len() && 0 <= j < self.meta@.len() && i2 != j
                                && #[trigger] self.meta@[i2].key != INVALID_KEY implies self.meta@[i2].key
                            != #[trigger] self.meta@[j].key by {
                            assert(old(self).meta@[i2].key == self.meta@[i2].key);
                            assert(old(self).meta@[j].key == self.meta@[j].key);
                        }
                    }
                    Some(
                        WriteJob {
                            file_id: (key / 0x1_0000_0000) as u32,
                            page_id: (key % 0x1_0000_0000) as u32,
                            data: self.bufs[i].clone(),
                        },
                    )
                } else {
                    None
                }
            },
        }
    }

    /// Clears every dirty bit of a resident page and hands out those pages,
    /// in frame order.
    pub fn flush_all(&mut self) -> (r: Vec<WriteJob>)
        requires
            old(self).wf(),
        ensures
            all_flushed(*old(self), *final(self), r@),
    {
        let mut jobs: Vec<WriteJob> = Vec::new();
        let mut i: usize = 0;
        let ghost m0 = self.meta@;
        while i < self.meta.len()
            invariant
                self.wf(),
                self.id == old(self).id,
                self.shard_count == old(self).shard_count,
                self.bufs@ == old(self).bufs@,
                m0 == old(self).meta@,
                self.meta@.len() == m0.len(),
                i <= m0.len(),
                forall|j: int|
                    0 <= j < m0.len() ==> #[trigger] self.meta@[j] == (if j < i && m0[j].key
                        != INVALID_KEY {
                        FrameMeta { dirty: false, ..m0[j] }
                    } else {
                        m0[j]
                    }),
                jobs_for(jobs@, m0, old(self).bufs@, i as int),
            decreases m0.len() - i,
        {
            let m = self.meta[i];
            if m.key != INVALID_KEY {
                if m.dirty {
                    let job = WriteJob {
                        file_id: (m.key / 0x1_0000_0000) as u32,
                        page_id: (m.key % 0x1_0000_0000) as u32,
                        data: self.bufs[i].clone(),
                    };
                    assert(key_of(job.file_id, job.page_id) == m.key);
                    jobs.push(job);
                }
                self.meta.set(i, FrameMeta { dirty: false, ..m });
                proof {
                    assert forall|i2: int, j: int|
                        0 <= i2 < self.meta@.len() && 0 <= j < self.meta@.len() && i2 != j
                            && #[trigger] self.meta@[i2].key != INVALID_KEY implies self.meta@[i2].key
                        != #[trigger] self.meta@[j].key by {
                        assert(m0[i2].key == self.meta@[i2].key);
                        assert(m0[j].key == self.meta@[j].key);
                    }
                }
            }
            i = i + 1;
        }
        jobs
    }

    /// Puts a buffer back in `frame` after work on it.
    fn swap_buf(&mut self, frame: usize, buf: &mut Vec<u8>)
        requires
            old(self).wf(),
            frame < old(self).bufs@.len(),
            header_valid(old(buf)@),
        ensures
            final(self).wf(),
            final(self).id == old(self).id,
            final(self).shard_count == old(self).shard_count,
            final(self).meta@ == old(self).meta@,
            final(self).bufs@ == old(self).bufs@.update(frame as int, *old(buf)),
            *final(buf) == old(self).bufs@[frame as int],
    {
        self.bufs.set_and_swap(frame, buf);
    }

    /// Encodes `tuple` into the page held in `frame`.
    pub fn insert_into(&mut self, frame: usize, tuple: &Tuple) -> (r: Result<usize, PageError>)
        requires
            old(self).wf(),
            frame < old(self).bufs@.len(),
            tuple_wf(tuple@),
        ensures
            frame_inserted(*old(self), *final(self), frame, tuple@, r),
    {
        let page_bytes = self.bufs[frame].clone();
        let mut page = Page { index: 0, data: page_bytes };
        let r = page.insert_tuple(tuple);
        let mut buf = page.data;
        self.swap_buf(frame, &mut buf);
        r
    }

    /// Writes an empty page into `frame`.
    pub fn init_frame(&mut self, frame: usize)
        requires
            old(self).wf(),
            frame < old(self).bufs@.len(),
        ensures
            frame_initialized(*old(self), *final(self), frame),
    {
        let page = Page::new(0);
        let mut buf = page.data;
        self.swap_buf(frame, &mut buf);
    }

    /// The number of slots of the page in `frame`.
    pub fn slot_count_of(&self, frame: usize) -> (r: usize)
        requires
            self.wf(),
            frame < self.bufs@.len(),
        ensures
            r == slot_count(self.bufs@[frame as int]@),
    {
        read_u16(&self.bufs[frame], 0) as usize
    }

    /// The tuple in slot `slot` of the page in `frame`.
    pub fn tuple_at(&self, frame: usize, slot: usize) -> (r: Option<Tuple>)
        requires
            self.wf(),
            frame < self.bufs@.len(),
        ensures
            page_read(self.bufs@[frame as int]@, slot as int, r),
    {
        let page = Page { index: 0, data: self.bufs[frame].clone() };
        page.get_tuple(slot)
    }
}

/// What `Page::get_tuple` reads from slot `k` of a page with a valid header.
pub open spec fn page_read(d: Seq<u8>, k: int, r: Option<Tuple>) -> bool {
    &&& k >= slot_count(d) ==> r.is_none()
    &&& slot_offset(d, k) + slot_length(d, k) > PAGE_SIZE ==> r.is_none()
    &&& (0 <= k < slot_count(d) && slot_offset(d, k) + slot_length(d, k) <= PAGE_SIZE) ==> match decode_tuple_spec(
        slot_bytes(d, k),
    ) {
        None => r.is_none(),
        Some(t) => r matches Some(u) && u@ == t,
    }
}

/// No resident page of the shard is dirty.
pub open spec fn clean(sh: Shard) -> bool {
    forall|i: int| 0 <= i < sh.meta@.len() && (#[trigger] sh.meta@[i]).key != INVALID_KEY ==> !sh.meta@[i].dirty
}

/// The number of write-back jobs of the shards below `s`: where the jobs
/// of shard `s` start in a flush.
pub open spec fn job_start(shards: Seq<Shard>, s: int) -> int
    decreases s,
{
    if s <= 0 {
        0
    } else {
        job_start(shards, s - 1) + dirty_frames(shards[s - 1].meta@, shards[s - 1].meta@.len() as int).len()
    }
}

proof fn lemma_job_start_mono(shards: Seq<Shard>, a: int, b: int)
    requires
        0 <= a <= b,
    ensures
        job_start(shards, a) <= job_start(shards, b),
    decreases b - a,
{
    if a < b {
        lemma_job_start_mono(shards, a, b - 1);
    }
}

/// A sharded cache of page frames.
pub struct BufferPool {
    pub shards: Vec<Shard>,
}

/// The shard that serves a page.
pub fn pick_shard(file_id: u32, page_id: u32, shard_count: usize) -> (r: usize)
    requires
        shard_count > 0,
    ensures
        r == shard_of(file_id, page_id, shard_count as nat),
        r < shard_count,
{
    ((file_id ^ page_id) as usize) % shard_count
}

impl BufferPool {
    /// Every shard is well formed, knows its place and the number of shards.
    pub open spec fn wf(&self) -> bool {
        &&& self.shards@.len() > 0
        &&& forall|s: int|
            0 <= s < self.shards@.len() ==> {
                &&& (#[trigger] self.shards@[s]).wf()
                &&& self.shards@[s].id == s
                &&& self.shards@[s].shard_count == self.shards@.len()
            }
    }

    /// The shard of a page, as a spec function of the pool.
    pub open spec fn shard(&self, file_id: u32, page_id: u32) -> Shard {
        self.shards@[shard_of(file_id, page_id, self.shards@.len())]
    }

    /// `other` differs from this pool in the shard of the page at most.
    pub open spec fn others_same(&self, other: &BufferPool, file_id: u32, page_id: u32) -> bool {
        &&& other.shards@.len() == self.shards@.len()
        &&& forall|s: int|
            0 <= s < self.shards@.len() && s != shard_of(file_id, page_id, self.shards@.len())
                ==> #[trigger] other.shards@[s] == self.shards@[s]
    }

    /// A pool of `shard_count` shards of `slots` frames each.
    pub fn with_capacity(shard_count: usize, slots: usize) -> (r: BufferPool)
        requires
            shard_count > 0,
            0 < slots <= MAX_SLOTS_PER_SHARD,
        ensures
            r.wf(),
            r.shards@.len() == shard_count,
            forall|s: int| 0 <= s < shard_count ==> (#[trigger] r.shards@[s]).meta@.len() == slots,
    {
        let mut shards: Vec<Shard> = Vec::with_capacity(shard_count);
        let mut i: usize = 0;
        while i < shard_count
            invariant
                i <= shard_count,
                0 < slots <= MAX_SLOTS_PER_SHARD,
                shards@.len() == i,
                forall|s: int|
                    0 <= s < i ==> {
                        &&& (#[trigger] shards@[s]).wf()
                        &&& shards@[s].id == s
                        &&& shards@[s].shard_count == shard_count
                        &&& shards@[s].meta@.len() == slots
                    },
            decreases shard_count - i,
        {
            shards.push(Shard::new(i, shard_count, slots));
            i = i + 1;
        }
        BufferPool { shards }
    }

    /// A pool of four shards of 1024 frames.
    pub fn new() -> (r: BufferPool)
        ensures
            r.wf(),
            r.shards@.len() == DEFAULT_SHARD_COUNT,
    {
        BufferPool::with_capacity(DEFAULT_SHARD_COUNT, DEFAULT_SLOTS_PER_SHARD)
    }

    fn take_shard(&mut self, s: usize) -> (r: Shard)
        requires
            s < old(self).shards@.len(),
        ensures
            r == old(self).shards@[s as int],
            final(self).shards@.len() == old(self).shards@.len(),
            forall|t: int|
                0 <= t < old(self).shards@.len() && t != s ==> #[trigger] final(self).shards@[t]
                    == old(self).shards@[t],
    {
        let mut sh = Shard { id: 0, shard_count: 0, meta: Vec::new(), bufs: Vec::new(), hand: 0 };
        self.shards.set_and_swap(s, &mut sh);
        sh
    }

    fn put_shard(&mut self, s: usize, sh: Shard)
        requires
            s < old(self).shards@.len(),
        ensures
            final(self).shards@ == old(self).shards@.update(s as int, sh),
    {
        let mut sh = sh;
        self.shards.set_and_swap(s, &mut sh);
    }

    /// Asks for a page; see [`Shard::get_page`].
    pub fn get_page(&mut self, file_id: u32, page_id: u32) -> (r: Fetch)
        requires
            old(self).wf(),
            key_of(file_id, page_id) != INVALID_KEY,
        ensures
            final(self).wf(),
            old(self).others_same(final(self), file_id, page_id),
            fetched(old(self).shard(file_id, page_id), final(self).shard(file_id, page_id), key_of(file_id, page_id), r),
    {
        let key = make_key(file_id, page_id);
        let s = pick_shard(file_id, page_id, self.shards.len());
        let mut sh = self.take_shard(s);
        let r = sh.get_page(key);
        self.put_shard(s, sh);
        r
    }

    /// Installs the bytes read for a page reserved by `get_page`.
    pub fn complete_load(&mut self, file_id: u32, page_id: u32, frame: usize, data: Option<Vec<u8>>)
        requires
            old(self).wf(),
            frame < old(self).shard(file_id, page_id).meta@.len(),
            old(self).shard(file_id, page_id).meta@[frame as int].pin == EVICTING,
        ensures
            final(self).wf(),
            old(self).others_same(final(self), file_id, page_id),
            loaded(old(self).shard(file_id, page_id), final(self).shard(file_id, page_id), frame, data),
    {
        let s = pick_shard(file_id, page_id, self.shards.len());
        let mut sh = self.take_shard(s);
        sh.complete_load(frame, data);
        self.put_shard(s, sh);
    }

    /// Drops one pin of a page.
    pub fn unpin(&mut self, file_id: u32, page_id: u32, is_dirty: bool)
        requires
            old(self).wf(),
            key_of(file_id, page_id) != INVALID_KEY,
        ensures
            final(self).wf(),
            old(self).others_same(final(self), file_id, page_id),
            unpinned(old(self).shard(file_id, page_id), final(self).shard(file_id, page_id), key_of(file_id, page_id), is_dirty),
    {
        let key = make_key(file_id, page_id);
        let s = pick_shard(file_id, page_id, self.shards.len());
        let mut sh = self.take_shard(s);
        sh.unpin(key, is_dirty);
        self.put_shard(s, sh);
    }

    /// Drops one pin of a page, then hands out its bytes if it is dirty.
    pub fn unpin_and_flush(&mut self, file_id: u32, page_id: u32, is_dirty: bool) -> (r: Option<WriteJob>)
        requires
            old(self).wf(),
            key_of(file_id, page_id) != INVALID_KEY,
        ensures
            final(self).wf(),
            old(self).others_same(final(self), file_id, page_id),
            exists|mid: Shard|
                #[trigger] unpinned(old(self).shard(file_id, page_id), mid, key_of(file_id, page_id), is_dirty)
                    && page_flushed(mid, final(self).shard(file_id, page_id), key_of(file_id, page_id), r),
    {
        let key = make_key(file_id, page_id);
        let s = pick_shard(file_id, page_id, self.shards.len());
        let mut sh = self.take_shard(s);
        sh.unpin(key, is_dirty);
        let ghost mid = sh;
        let r = sh.flush_page(key);
        self.put_shard(s, sh);
        assert(unpinned(old(self).shard(file_id, page_id), mid, key_of(file_id, page_id), is_dirty));
        r
    }

    /// Clears every dirty bit and hands out those pages, shard by shard.
    pub fn flush(&mut self) -> (r: Vec<WriteJob>)
        requires
            old(self).wf(),
        ensures
            final(self).wf(),
            final(self).shards@.len() == old(self).shards@.len(),
            forall|s: int| 0 <= s < old(self).shards@.len() ==> clean(#[trigger] final(self).shards@[s]),
            r@.len() == job_start(old(self).shards@, old(self).shards@.len() as int),
            forall|s: int|
                0 <= s < old(self).shards@.len() ==> all_flushed(
                    old(self).shards@[s],
                    #[trigger] final(self).shards@[s],
                    r@.subrange(job_start(old(self).shards@, s), job_start(old(self).shards@, s + 1)),
                ),
    {
        let mut jobs: Vec<WriteJob> = Vec::new();
        let mut s: usize = 0;
        let n = self.shards.len();
        let ghost old_shards = self.shards@;
        while s < n
            invariant
                self.wf(),
                n == self.shards@.len(),
                n == old(self).shards@.len(),
                old_shards == old(self).shards@,
                s <= n,
                forall|t: int| s <= t < n ==> #[trigger] self.shards@[t] == old_shards[t],
                forall|t: int| 0 <= t < s ==> clean(#[trigger] self.shards@[t]),
                jobs@.len() == job_start(old_shards, s as int),
                forall|t: int|
                    0 <= t < s ==> all_flushed(
                        old_shards[t],
                        #[trigger] self.shards@[t],
                        jobs@.subrange(job_start(old_shards, t), job_start(old_shards, t + 1)),
                    ),
            decreases n - s,
        {
            let ghost before = jobs@;
            let mut sh = self.take_shard(s);
            assert(sh == old_shards[s as int]);
            let ghost sh0 = sh;
            let mut part = sh.flush_all();
            let ghost part_v = part@;
            proof {
                assert(all_flushed(sh0, sh, part_v));
                assert forall|i: int| 0 <= i < sh.meta@.len() && (#[trigger] sh.meta@[i]).key != INVALID_KEY implies !sh.meta@[i].dirty by {
                    assert(sh.meta@[i] == FrameMeta { dirty: false, ..old_shards[s as int].meta@[i] });
                }
            }
            self.put_shard(s, sh);
            jobs.append(&mut part);
            proof {
                assert(jobs@ == before + part_v);
                assert forall|t: int|
                    0 <= t < s + 1 implies all_flushed(
                        old_shards[t],
                        #[trigger] self.shards@[t],
                        jobs@.subrange(job_start(old_shards, t), job_start(old_shards, t + 1)),
                    ) by {
                    lemma_job_start_mono(old_shards, 0, t);
                    if t < s {
                        lemma_job_start_mono(old_shards, t + 1, s as int);
                        assert(jobs@.subrange(job_start(old_shards, t), job_start(old_shards, t + 1)) =~= before.subrange(
                            job_start(old_shards, t),
                            job_start(old_shards, t + 1),
                        ));
                    } else {
                        assert(jobs@.subrange(job_start(old_shards, t), job_start(old_shards, t + 1)) =~= part_v);
                    }
                }
            }
            s = s + 1;
        }
        jobs
    }

    /// Whether a page is resident, and in which frame of its shard.
    pub fn frame_of(&self, file_id: u32, page_id: u32) -> (r: Option<usize>)
        requires
            self.wf(),
        ensures
            match r {
                Some(i) => i < self.shard(file_id, page_id).meta@.len() && self.shard(file_id, page_id).meta@[i as int].key == key_of(file_id, page_id),
                None => !holds_key(self.shard(file_id, page_id).meta@, key_of(file_id, page_id)),
            },
    {
        let key = make_key(file_id, page_id);
        let s = pick_shard(file_id, page_id, self.shards.len());
        self.shards[s].find(key)
    }

    /// Encodes `tuple` into the page held in `frame` of the page's shard.
    pub fn insert_into(&mut self, file_id: u32, page_id: u32, frame: usize, tuple: &Tuple) -> (r: Result<usize, PageError>)
        requires
            old(self).wf(),
            frame < old(self).shard(file_id, page_id).bufs@.len(),
            tuple_wf(tuple@),
        ensures
            final(self).wf(),
            old(self).others_same(final(self), file_id, page_id),
            frame_inserted(old(self).shard(file_id, page_id), final(self).shard(file_id, page_id), frame, tuple@, r),
    {
        let s = pick_shard(file_id, page_id, self.shards.len());
        let mut sh = self.take_shard(s);
        let r = sh.insert_into(frame, tuple);
        self.put_shard(s, sh);
        r
    }

    /// Writes an empty page into `frame` of the page's shard.
    pub fn init_page(&mut self, file_id: u32, page_id: u32, frame: usize)
        requires
            old(self).wf(),
            frame < old(self).shard(file_id, page_id).bufs@.len(),
        ensures
            final(self).wf(),
            old(self).others_same(final(self), file_id, page_id),
            frame_initialized(old(self).shard(file_id, page_id), final(self).shard(file_id, page_id), frame),
    {
        let s = pick_shard(file_id, page_id, self.shards.len());
        let mut sh = self.take_shard(s);
        sh.init_frame(frame);
        self.put_shard(s, sh);
    }

    /// The number of slots of the page in `frame` of the page's shard.
    pub fn slot_count(&self, file_id: u32, page_id: u32, frame: usize) -> (r: usize)
        requires
            self.wf(),
            frame < self.shard(file_id, page_id).bufs@.len(),
        ensures
            r == slot_count(self.shard(file_id, page_id).bufs@[frame as int]@),
    {
        let s = pick_shard(file_id, page_id, self.shards.len());
        self.shards[s].slot_count_of(frame)
    }

    /// The tuple in slot `slot` of the page in `frame` of the page's shard.
    pub fn get_tuple(&self, file_id: u32, page_id: u32, frame: usize, slot: usize) -> (r: Option<Tuple>)
        requires
            self.wf(),
            frame < self.shard(file_id, page_id).bufs@.len(),
        ensures
            page_read(self.shard(file_id, page_id).bufs@[frame as int]@, slot as int, r),
    {
        let s = pick_shard(file_id, page_id, self.shards.len());
        self.shards[s].tuple_at(frame, slot)
    }

    /// A copy of the bytes of the page in `frame` of the page's shard.
    pub fn page_bytes(&self, file_id: u32, page_id: u32, frame: usize) -> (r: Vec<u8>)
        requires
            self.wf(),
            frame < self.shard(file_id, page_id).bufs@.len(),
        ensures
            r@ == self.shard(file_id, page_id).bufs@[frame as int]@,
    {
        let s = pick_shard(file_id, page_id, self.shards.len());
        self.shards[s].bufs[frame].clone()
    }
}

/// Every frame of a well-formed pool, and so every page a request returns,
/// starts with a valid header: at most 1023 slots, and a free pointer between
/// the slot directory and the end of the page.
pub proof fn lemma_frames_have_valid_headers(pool: BufferPool, file_id: u32, page_id: u32, frame: int)
    requires
        pool.wf(),
        0 <= frame < pool.shard(file_id, page_id).bufs@.len(),
    ensures
        header_valid(pool.shard(file_id, page_id).bufs@[frame]@),
        slot_count(pool.shard(file_id, page_id).bufs@[frame]@) <= (PAGE_SIZE - 4) / 4,
{
    let s = shard_of(file_id, page_id, pool.shards@.len());
    assert(pool.shards@[s].wf());
}

/// Pinning a resident page and unpinning it again leaves every pin count as
/// it was.
pub proof fn lemma_pin_balance_on_hit(s0: Shard, s1: Shard, s2: Shard, key: u64, frame: usize, is_dirty: bool)
    requires
        s0.wf(),
        key != INVALID_KEY,
        fetched(s0, s1, key, Fetch::Hit(frame)),
        unpinned(s1, s2, key, is_dirty),
    ensures
        pins(s2.meta@) == pins(s0.meta@),
{
    let m0 = s0.meta@;
    let m1 = s1.meta@;
    let i = frame as int;
    assert(m1[i].key == key && 0 < m1[i].pin < EVICTING);
    let j = choose|j: int|
        0 <= j < m1.len() && m1[j].key == key && 0 < m1[j].pin < EVICTING && (forall|k: int|
            0 <= k < m1.len() && k != j ==> m1[k].key != key) && s2.meta@ == m1.update(
            j,
            FrameMeta { pin: (m1[j].pin - 1) as usize, dirty: m1[j].dirty || (is_dirty && m1[j].pin == 1), ..m1[j] },
        );
    assert(j == i);
    assert(pins(s2.meta@) =~= pins(m0));
}

/// Loading a page into a free frame, then unpinning it, leaves every pin
/// count as it was.
pub proof fn lemma_pin_balance_on_load(
    s0: Shard,
    s1: Shard,
    s2: Shard,
    s3: Shard,
    key: u64,
    frame: usize,
    write_back: Option<WriteJob>,
    data: Option<Vec<u8>>,
    is_dirty: bool,
)
    requires
        s0.wf(),
        key != INVALID_KEY,
        fetched(s0, s1, key, Fetch::Load { frame, write_back }),
        loaded(s1, s2, frame, data),
        unpinned(s2, s3, key, is_dirty),
    ensures
        pins(s3.meta@) == pins(s0.meta@),
{
    let m2 = s2.meta@;
    let i = frame as int;
    assert(m2[i].key == key && m2[i].pin == 1);
    let j = choose|j: int|
        0 <= j < m2.len() && m2[j].key == key && 0 < m2[j].pin < EVICTING && (forall|k: int|
            0 <= k < m2.len() && k != j ==> m2[k].key != key) && s3.meta@ == m2.update(
            j,
            FrameMeta { pin: (m2[j].pin - 1) as usize, dirty: m2[j].dirty || (is_dirty && m2[j].pin == 1), ..m2[j] },
        );
    assert(j == i);
    assert forall|k: int| 0 <= k < s0.meta@.len() implies pins(s3.meta@)[k] == pins(s0.meta@)[k] by {
        if k != i {
            assert(same_but_ref(s0.meta@[k], s1.meta@[k]));
        }
    }
    assert(pins(s3.meta@) =~= pins(s0.meta@));
}

} // verus!
