use vstd::prelude::*;
use crate::value::{
    decode_tuple_spec, le_u16_at, lemma_u16_round, read_u16, tuple_bytes, tuple_fits, tuple_wf, Tuple,
};

verus! {

broadcast use vstd::seq::group_seq_axioms;

/// The size of a page in bytes.
pub const PAGE_SIZE: usize = 4096;

/// Slot count and free-space pointer, two bytes each.
pub const HEADER_SIZE: usize = 4;

/// One slot entry: offset and length, two bytes each.
pub const SLOT_META_SIZE: usize = 4;

/// Why a tuple could not be placed in a page.
#[derive(Clone, Copy, Debug, PartialEq, Eq, Structural)]
pub enum PageError {
    /// The free gap is smaller than the tuple plus one slot entry.
    Full,
}

pub open spec fn slot_count(d: Seq<u8>) -> int {
    le_u16_at(d, 0) as int
}

pub open spec fn free_ptr(d: Seq<u8>) -> int {
    le_u16_at(d, 2) as int
}

pub open spec fn slot_offset(d: Seq<u8>, i: int) -> int {
    le_u16_at(d, 4 + 4 * i) as int
}

pub open spec fn slot_length(d: Seq<u8>, i: int) -> int {
    le_u16_at(d, 6 + 4 * i) as int
}

/// The end of the slot directory.
pub open spec fn slot_end(d: Seq<u8>) -> int {
    HEADER_SIZE + SLOT_META_SIZE * slot_count(d)
}

/// A page-sized buffer whose free pointer lies between the slot directory and
/// the end of the page.
pub open spec fn header_valid(d: Seq<u8>) -> bool {
    &&& d.len() == PAGE_SIZE
    &&& slot_end(d) <= free_ptr(d) <= PAGE_SIZE
}

/// A valid header whose slots point into the tuple region, packed downward,
/// without overlapping each other.
pub open spec fn page_wf(d: Seq<u8>) -> bool {
    &&& header_valid(d)
    &&& forall|i: int|
        0 <= i < slot_count(d) ==> free_ptr(d) <= #[trigger] slot_offset(d, i) && slot_offset(d, i)
            + slot_length(d, i) <= PAGE_SIZE
    &&& forall|i: int, j: int|
        0 <= i < j < slot_count(d) ==> #[trigger] slot_offset(d, j) + slot_length(d, j)
            <= #[trigger] slot_offset(d, i)
}

/// The bytes of slot `i`.
pub open spec fn slot_bytes(d: Seq<u8>, i: int) -> Seq<u8> {
    d.subrange(slot_offset(d, i), slot_offset(d, i) + slot_length(d, i))
}

/// The encoded tuples of a page, in slot order.
pub open spec fn page_tuples(d: Seq<u8>) -> Seq<Seq<u8>> {
    Seq::new(slot_count(d) as nat, |i: int| slot_bytes(d, i))
}

/// The usable gap between the slot directory and the tuple region.
pub open spec fn gap(d: Seq<u8>) -> int {
    if free_ptr(d) > slot_end(d) {
        free_ptr(d) - slot_end(d)
    } else {
        0
    }
}

/// Whether a tuple of `len` encoded bytes and its slot entry fit in the gap.
pub open spec fn fits_in(d: Seq<u8>, len: int) -> bool {
    free_ptr(d) - len >= HEADER_SIZE + SLOT_META_SIZE * (slot_count(d) + 1)
}

/// The header of an empty page: no slots, free pointer at the end.
pub open spec fn empty_page(d: Seq<u8>) -> bool {
    &&& d.len() == PAGE_SIZE
    &&& slot_count(d) == 0
    &&& free_ptr(d) == PAGE_SIZE
}

/// A buffer read from disk with a free pointer of zero or past the end set
/// to the end of the page, as a zero-filled buffer needs.
pub open spec fn repaired(d: Seq<u8>) -> Seq<u8> {
    if free_ptr(d) == 0 || free_ptr(d) > PAGE_SIZE {
        d.update(2, 0u8).update(3, 16u8)
    } else {
        d
    }
}

fn write_u16(d: &mut Vec<u8>, at: usize, x: u16)
    requires
        at + 2 <= old(d)@.len(),
    ensures
        final(d)@ == old(d)@.update(at as int, (x & 0xff) as u8).update(at + 1, (x >> 8u16) as u8),
        le_u16_at(final(d)@, at as int) == x,
{
    let _n = d.len();
    d.set(at, (x & 0xff) as u8);
    d.set(at + 1, (x >> 8u16) as u8);
    proof {
        lemma_u16_round(x);
    }
}

/// A slotted page: a 4096-byte buffer with its page number.
pub struct Page {
    pub index: u32,
    pub data: Vec<u8>,
}

impl Page {
    /// A fresh empty page.
    pub fn new(index: u32) -> (r: Page)
        ensures
            r.index == index,
            empty_page(r.data@),
            page_wf(r.data@),
    {
        let mut p = Page { index, data: vec![0u8; PAGE_SIZE] };
        p.init_new();
        p
    }

    /// Zeroes the buffer and writes the header of an empty page.
    pub fn init_new(&mut self)
        requires
            old(self).data@.len() == PAGE_SIZE,
        ensures
            final(self).index == old(self).index,
            empty_page(final(self).data@),
            page_wf(final(self).data@),
            forall|i: int| 4 <= i < PAGE_SIZE ==> final(self).data@[i] == 0,
    {
        let mut i: usize = 0;
        while i < PAGE_SIZE
            invariant
                self.data@.len() == PAGE_SIZE,
                i <= PAGE_SIZE,
                forall|j: int| 0 <= j < i ==> self.data@[j] == 0,
                self.index == old(self).index,
            decreases PAGE_SIZE - i,
        {
            self.data.set(i, 0);
            i = i + 1;
        }
        write_u16(&mut self.data, 0, 0);
        write_u16(&mut self.data, 2, PAGE_SIZE as u16);
    }

    /// Takes a buffer read from disk. A free pointer of zero or past the end
    /// is reset to the end of the page, as a zero-filled buffer has; a header
    /// that is still invalid after that is replaced by an empty page.
    pub fn from_bytes(index: u32, data: Vec<u8>) -> (r: Page)
        requires
            data@.len() == PAGE_SIZE,
        ensures
            r.index == index,
            r.data@ == repaired(data@),
    {
        let mut page = Page { index, data };
        let f = read_u16(&page.data, 2) as usize;
        if f == 0 || f > PAGE_SIZE {
            write_u16(&mut page.data, 2, PAGE_SIZE as u16);
            assert((4096u16 & 0xff) as u8 == 0u8 && (4096u16 >> 8u16) as u8 == 16u8) by (bit_vector);
            assert(page.data@ =~= repaired(data@));
            assert(le_u16_at(page.data@, 0) == le_u16_at(data@, 0));
        } else {
            assert(page.data@ =~= repaired(data@));
        }
        page
    }

    /// Whether the header is valid: the free pointer lies between the slot
    /// directory and the end of the page.
    pub fn has_valid_header(&self) -> (r: bool)
        requires
            self.data@.len() == PAGE_SIZE,
        ensures
            r == header_valid(self.data@),
    {
        let n = read_u16(&self.data, 0) as usize;
        let f = read_u16(&self.data, 2) as usize;
        HEADER_SIZE + SLOT_META_SIZE * n <= f && f <= PAGE_SIZE
    }

    /// A copy of the page's bytes.
    pub fn to_bytes(&self) -> (r: Vec<u8>)
        ensures
            r@ == self.data@,
    {
        self.data.clone()
    }

    /// The free gap: `F - (4 + 4N)`, or zero.
    pub fn available_space(&self) -> (r: usize)
        requires
            self.data@.len() == PAGE_SIZE,
        ensures
            r == gap(self.data@),
    {
        let n = read_u16(&self.data, 0) as usize;
        let f = read_u16(&self.data, 2) as usize;
        let end = HEADER_SIZE + SLOT_META_SIZE * n;
        if f > end {
            f - end
        } else {
            0
        }
    }

    /// The tuple in slot `idx`, if there is such a slot and its bytes decode.
    pub fn get_tuple(&self, idx: usize) -> (r: Option<Tuple>)
        requires
            header_valid(self.data@),
        ensures
            idx >= slot_count(self.data@) ==> r.is_none(),
            slot_offset(self.data@, idx as int) + slot_length(self.data@, idx as int) > PAGE_SIZE
                ==> r.is_none(),
            idx < slot_count(self.data@) && slot_offset(self.data@, idx as int) + slot_length(
                self.data@,
                idx as int,
            ) <= PAGE_SIZE ==> match decode_tuple_spec(slot_bytes(self.data@, idx as int)) {
                None => r.is_none(),
                Some(t) => r matches Some(u) && u@ == t,
            },
    {
        let n = read_u16(&self.data, 0) as usize;
        if idx >= n {
            return None;
        }
        let pos = HEADER_SIZE + SLOT_META_SIZE * idx;
        let offset = read_u16(&self.data, pos) as usize;
        let length = read_u16(&self.data, pos + 2) as usize;
        if offset + length > PAGE_SIZE {
            return None;
        }
        Tuple::from_bytes_range(&self.data, offset, offset + length)
    }

    /// Encodes `tuple` and places it just below the free pointer, with a new
    /// slot entry at the end of the directory; gives the new slot's index.
    pub fn insert_tuple(&mut self, tuple: &Tuple) -> (r: Result<usize, PageError>)
        requires
            header_valid(old(self).data@),
            tuple_wf(tuple@),
        ensures
            final(self).index == old(self).index,
            header_valid(final(self).data@),
            r.is_ok() == fits_in(old(self).data@, tuple_bytes(tuple@).len() as int),
            r.is_err() ==> final(self).data@ == old(self).data@,
            r matches Ok(k) ==> {
                &&& k == slot_count(old(self).data@)
                &&& slot_count(final(self).data@) == k + 1
                &&& free_ptr(final(self).data@) == free_ptr(old(self).data@) - tuple_bytes(tuple@).len()
                &&& slot_bytes(final(self).data@, k as int) == tuple_bytes(tuple@)
                &&& slot_offset(final(self).data@, k as int) == free_ptr(old(self).data@) - tuple_bytes(tuple@).len()
                &&& slot_length(final(self).data@, k as int) == tuple_bytes(tuple@).len()
                &&& forall|i: int|
                    4 <= i < PAGE_SIZE && !(4 + 4 * k <= i < 8 + 4 * k) && !(free_ptr(old(self).data@)
                        - tuple_bytes(tuple@).len() <= i < free_ptr(old(self).data@)) ==> #[trigger] final(self).data@[i]
                        == old(self).data@[i]
                &&& (page_wf(old(self).data@) ==> page_wf(final(self).data@) && page_tuples(
                    final(self).data@,
                ) == page_tuples(old(self).data@).push(tuple_bytes(tuple@)))
            },
    {
        assert(tuple_fits(tuple@)) by {
            assert forall|i: int| 0 <= i < tuple@.len() implies crate::value::value_fits(#[trigger] tuple@[i]) by {
                assert(crate::value::value_wf(tuple@[i]));
            }
        }
        let bytes = tuple.to_bytes();
        let len = bytes.len();
        let n = read_u16(&self.data, 0) as usize;
        let f = read_u16(&self.data, 2) as usize;
        if len > f || f - len < HEADER_SIZE + SLOT_META_SIZE * (n + 1) {
            return Err(PageError::Full);
        }
        let start = f - len;
        let ghost d0 = self.data@;
        let mut i: usize = 0;
        while i < len
            invariant
                i <= len,
                len == bytes@.len(),
                start + len == f,
                f <= PAGE_SIZE,
                self.data@.len() == PAGE_SIZE,
                self.index == old(self).index,
                forall|j: int| 0 <= j < start ==> self.data@[j] == d0[j],
                forall|j: int| f <= j < PAGE_SIZE ==> self.data@[j] == d0[j],
                forall|j: int| 0 <= j < i ==> self.data@[start + j] == bytes@[j],
            decreases len - i,
        {
            self.data.set(start + i, bytes[i]);
            i = i + 1;
        }
        let ghost d1 = self.data@;
        let pos = HEADER_SIZE + SLOT_META_SIZE * n;
        write_u16(&mut self.data, pos, start as u16);
        write_u16(&mut self.data, pos + 2, len as u16);
        write_u16(&mut self.data, 0, (n + 1) as u16);
        write_u16(&mut self.data, 2, start as u16);
        let ghost d = self.data@;
        proof {
            assert(d.subrange(start as int, f as int) =~= bytes@);
            assert(slot_offset(d, n as int) == start);
            assert(slot_length(d, n as int) == len);
            assert forall|i: int| 0 <= i < n implies slot_offset(d, i) == slot_offset(d0, i)
                && slot_length(d, i) == slot_length(d0, i) by {
                assert(d[4 + 4 * i] == d0[4 + 4 * i]);
                assert(d[5 + 4 * i] == d0[5 + 4 * i]);
                assert(d[6 + 4 * i] == d0[6 + 4 * i]);
                assert(d[7 + 4 * i] == d0[7 + 4 * i]);
            }
            if page_wf(d0) {
                assert forall|i: int| 0 <= i < slot_count(d) implies free_ptr(d) <= #[trigger] slot_offset(d, i)
                    && slot_offset(d, i) + slot_length(d, i) <= PAGE_SIZE by {
                    if i < n {
                        assert(free_ptr(d0) <= slot_offset(d0, i));
                    }
                }
                assert forall|i: int, j: int| 0 <= i < j < slot_count(d) implies #[trigger] slot_offset(d, j)
                    + slot_length(d, j) <= #[trigger] slot_offset(d, i) by {
                    if j < n {
                        assert(slot_offset(d0, j) + slot_length(d0, j) <= slot_offset(d0, i));
                    } else {
                        assert(free_ptr(d0) <= slot_offset(d0, i));
                    }
                }
                assert(page_tuples(d) =~= page_tuples(d0).push(bytes@)) by {
                    assert forall|i: int| 0 <= i < n implies slot_bytes(d, i) == slot_bytes(d0, i) by {
                        assert(free_ptr(d0) <= slot_offset(d0, i));
                        assert(slot_bytes(d, i) =~= slot_bytes(d0, i));
                    }
                }
            }
        }
        Ok(n)
    }
}


/// A page reports `Full` exactly when its free gap is smaller than the
/// encoded tuple plus one slot entry.
pub proof fn lemma_full_iff_gap_short(d: Seq<u8>, len: int)
    requires
        header_valid(d),
        len >= 0,
    ensures
        !fits_in(d, len) <==> gap(d) < len + SLOT_META_SIZE,
{
}

/// What `insert_tuple` stored in a slot is what `get_tuple` reads back from it.
pub proof fn lemma_inserted_tuple_reads_back(d: Seq<u8>, k: int, t: Seq<crate::value::ValueV>)
    requires
        crate::value::tuple_wf(t),
        slot_bytes(d, k) == tuple_bytes(t),
    ensures
        decode_tuple_spec(slot_bytes(d, k)) == Some(t),
{
    crate::value::lemma_tuple_round_trip(t);
}

} // verus!
