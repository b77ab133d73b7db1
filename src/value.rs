use vstd::prelude::*;
use vstd::utf8::*;

verus! {

broadcast use vstd::seq::group_seq_axioms;

/// Whether chrono accepts `year-month-day` as a calendar date.
pub uninterp spec fn date_valid(year: i32, month: u16, day: u16) -> bool;

/// Whether chrono accepts `secs` seconds and `nanos` nanoseconds since the epoch.
pub uninterp spec fn timestamp_valid(secs: i64, nanos: u32) -> bool;

/// Relies on chrono::NaiveDate::from_ymd_opt: `Some` exactly for dates chrono can hold.
#[verifier::external_body]
fn check_date(year: i32, month: u16, day: u16) -> (r: bool)
    ensures
        r == date_valid(year, month, day),
        r ==> 1 <= month <= 12 && 1 <= day <= 31,
{
    chrono::NaiveDate::from_ymd_opt(year, month as u32, day as u32).is_some()
}

/// Relies on chrono::DateTime::from_timestamp: `Some` exactly for instants chrono can hold.
#[verifier::external_body]
fn check_timestamp(secs: i64, nanos: u32) -> (r: bool)
    ensures
        r == timestamp_valid(secs, nanos),
{
    chrono::DateTime::from_timestamp(secs, nanos).is_some()
}

/// What `String::from_utf8_lossy` makes of bytes that are not valid UTF-8.
pub uninterp spec fn lossy_utf8(b: Seq<u8>) -> Seq<char>;

/// The text of a UTF-8 payload: its characters when valid, otherwise what
/// lossy decoding gives.
pub open spec fn text_of(b: Seq<u8>) -> Seq<char> {
    if valid_utf8(b) { decode_utf8(b) } else { lossy_utf8(b) }
}

/// Relies on String::from_utf8_lossy: valid UTF-8 comes back as those
/// characters; invalid sequences are replaced, as a function of the bytes.
#[verifier::external_body]
fn text_from_utf8_lossy(b: Vec<u8>) -> (r: String)
    ensures
        valid_utf8(b@) ==> r@ == decode_utf8(b@),
        !valid_utf8(b@) ==> r@ == lossy_utf8(b@),
{
    String::from_utf8_lossy(&b).into_owned()
}

/// A calendar date as year, month and day.
#[derive(Clone, Copy, Debug, PartialEq, Eq, Structural)]
pub struct Date {
    pub year: i32,
    pub month: u16,
    pub day: u16,
}

impl Date {
    /// The date, when chrono recognises it.
    pub fn new(year: i32, month: u16, day: u16) -> (r: Option<Date>)
        ensures
            r.is_some() == date_valid(year, month, day),
            r matches Some(d) ==> d.year == year && d.month == month && d.day == day,
    {
        if check_date(year, month, day) {
            Some(Date { year, month, day })
        } else {
            None
        }
    }
}

/// An instant as seconds and nanoseconds since the Unix epoch.
#[derive(Clone, Copy, Debug, PartialEq, Eq, Structural)]
pub struct DateTime {
    pub secs: i64,
    pub nanos: u32,
}

impl DateTime {
    /// The instant, when chrono recognises it.
    pub fn new(secs: i64, nanos: u32) -> (r: Option<DateTime>)
        ensures
            r.is_some() == timestamp_valid(secs, nanos),
            r matches Some(t) ==> t.secs == secs && t.nanos == nanos,
    {
        if check_timestamp(secs, nanos) {
            Some(DateTime { secs, nanos })
        } else {
            None
        }
    }
}

/// A column value. Floating-point payloads are held as their IEEE-754 bits.
#[derive(Clone, Debug)]
pub enum Value {
    Null,
    Int(i32),
    Long(i64),
    Float(u32),
    Double(u64),
    Text(String),
    Boolean(bool),
    Date(Date),
    DateTime(DateTime),
    Blob(Vec<u8>),
    Byte(u8),
}

/// The mathematical content of a [`Value`].
pub enum ValueV {
    Null,
    Int(i32),
    Long(i64),
    Float(u32),
    Double(u64),
    Text(Seq<char>),
    Boolean(bool),
    Date(Date),
    DateTime(DateTime),
    Blob(Seq<u8>),
    Byte(u8),
}

impl View for Value {
    type V = ValueV;

    open spec fn view(&self) -> ValueV {
        match self {
            Value::Null => ValueV::Null,
            Value::Int(i) => ValueV::Int(*i),
            Value::Long(l) => ValueV::Long(*l),
            Value::Float(f) => ValueV::Float(*f),
            Value::Double(d) => ValueV::Double(*d),
            Value::Text(s) => ValueV::Text(s@),
            Value::Boolean(b) => ValueV::Boolean(*b),
            Value::Date(d) => ValueV::Date(*d),
            Value::DateTime(t) => ValueV::DateTime(*t),
            Value::Blob(b) => ValueV::Blob(b@),
            Value::Byte(b) => ValueV::Byte(*b),
        }
    }
}

/// The largest payload of a length-prefixed value, in bytes.
pub const MAX_VAR_LEN: usize = 65535;

/// A value whose variable-width payload fits its 16-bit length prefix.
pub open spec fn value_fits(v: ValueV) -> bool {
    match v {
        ValueV::Text(s) => encode_utf8(s).len() <= MAX_VAR_LEN,
        ValueV::Blob(b) => b.len() <= MAX_VAR_LEN,
        _ => true,
    }
}

/// A value that fits its encoding and whose date or instant chrono accepts.
pub open spec fn value_wf(v: ValueV) -> bool {
    &&& value_fits(v)
    &&& (v matches ValueV::Date(d) ==> date_valid(d.year, d.month, d.day))
    &&& (v matches ValueV::DateTime(t) ==> timestamp_valid(t.secs, t.nanos))
}

pub open spec fn tuple_fits(t: Seq<ValueV>) -> bool {
    forall|i: int| 0 <= i < t.len() ==> value_fits(#[trigger] t[i])
}

pub open spec fn tuple_wf(t: Seq<ValueV>) -> bool {
    forall|i: int| 0 <= i < t.len() ==> value_wf(#[trigger] t[i])
}

pub open spec fn u16_le(x: u16) -> Seq<u8> {
    seq![(x & 0xff) as u8, (x >> 8u16) as u8]
}

pub open spec fn u32_le(x: u32) -> Seq<u8> {
    seq![(x & 0xff) as u8, ((x >> 8u32) & 0xff) as u8, ((x >> 16u32) & 0xff) as u8, (x >> 24u32) as u8]
}

pub open spec fn u64_le(x: u64) -> Seq<u8> {
    seq![
        (x & 0xff) as u8,
        ((x >> 8u64) & 0xff) as u8,
        ((x >> 16u64) & 0xff) as u8,
        ((x >> 24u64) & 0xff) as u8,
        ((x >> 32u64) & 0xff) as u8,
        ((x >> 40u64) & 0xff) as u8,
        ((x >> 48u64) & 0xff) as u8,
        (x >> 56u64) as u8,
    ]
}

pub open spec fn le_u16(b0: u8, b1: u8) -> u16 {
    (b0 as u16) | ((b1 as u16) << 8u16)
}

pub open spec fn le_u32(b0: u8, b1: u8, b2: u8, b3: u8) -> u32 {
    (b0 as u32) | ((b1 as u32) << 8u32) | ((b2 as u32) << 16u32) | ((b3 as u32) << 24u32)
}

pub open spec fn le_u64(s: Seq<u8>, at: int) -> u64 {
    (s[at] as u64) | ((s[at + 1] as u64) << 8u64) | ((s[at + 2] as u64) << 16u64) | ((s[at + 3] as u64)
        << 24u64) | ((s[at + 4] as u64) << 32u64) | ((s[at + 5] as u64) << 40u64) | ((s[at + 6] as u64)
        << 48u64) | ((s[at + 7] as u64) << 56u64)
}

pub open spec fn le_u32_at(s: Seq<u8>, at: int) -> u32 {
    le_u32(s[at], s[at + 1], s[at + 2], s[at + 3])
}

pub open spec fn le_u16_at(s: Seq<u8>, at: int) -> u16 {
    le_u16(s[at], s[at + 1])
}

/// The one-byte tag of each kind of value.
pub open spec fn value_tag(v: ValueV) -> u8 {
    match v {
        ValueV::Null => 0x00,
        ValueV::Int(_) => 0x01,
        ValueV::Long(_) => 0x02,
        ValueV::Float(_) => 0x03,
        ValueV::Double(_) => 0x04,
        ValueV::Text(_) => 0x05,
        ValueV::Boolean(_) => 0x06,
        ValueV::Date(_) => 0x07,
        ValueV::DateTime(_) => 0x08,
        ValueV::Blob(_) => 0x09,
        ValueV::Byte(_) => 0x0A,
    }
}

/// The tag-prefixed little-endian encoding of one value.
pub open spec fn value_bytes(v: ValueV) -> Seq<u8> {
    seq![value_tag(v)] + match v {
        ValueV::Null => Seq::<u8>::empty(),
        ValueV::Int(i) => u32_le(i as u32),
        ValueV::Long(l) => u64_le(l as u64),
        ValueV::Float(f) => u32_le(f),
        ValueV::Double(d) => u64_le(d),
        ValueV::Text(s) => u16_le(encode_utf8(s).len() as u16) + encode_utf8(s),
        ValueV::Boolean(b) => seq![if b { 1u8 } else { 0u8 }],
        ValueV::Date(d) => u32_le(d.year as u32) + u16_le(d.month) + u16_le(d.day),
        ValueV::DateTime(t) => u64_le(t.secs as u64) + u32_le(t.nanos),
        ValueV::Blob(b) => u16_le(b.len() as u16) + b,
        ValueV::Byte(b) => seq![b],
    }
}

/// The encoding of a tuple: its values' encodings, back to back.
pub open spec fn tuple_bytes(t: Seq<ValueV>) -> Seq<u8>
    decreases t.len(),
{
    if t.len() == 0 {
        Seq::empty()
    } else {
        value_bytes(t[0]) + tuple_bytes(t.drop_first())
    }
}

/// The value at the front of `s` and the number of bytes it takes, if `s`
/// starts with a well-formed encoding.
pub open spec fn decode_value_spec(s: Seq<u8>) -> Option<(ValueV, nat)> {
    if s.len() == 0 {
        None
    } else {
        let tag = s[0];
        if tag == 0x00 {
            Some((ValueV::Null, 1))
        } else if tag == 0x01 {
            if s.len() >= 5 { Some((ValueV::Int(le_u32_at(s, 1) as i32), 5)) } else { None }
        } else if tag == 0x02 {
            if s.len() >= 9 { Some((ValueV::Long(le_u64(s, 1) as i64), 9)) } else { None }
        } else if tag == 0x03 {
            if s.len() >= 5 { Some((ValueV::Float(le_u32_at(s, 1)), 5)) } else { None }
        } else if tag == 0x04 {
            if s.len() >= 9 { Some((ValueV::Double(le_u64(s, 1)), 9)) } else { None }
        } else if tag == 0x05 {
            if s.len() >= 3 && s.len() >= 3 + le_u16_at(s, 1) {
                Some(
                    (
                        ValueV::Text(text_of(s.subrange(3, 3 + le_u16_at(s, 1)))),
                        (3 + le_u16_at(s, 1)) as nat,
                    ),
                )
            } else {
                None
            }
        } else if tag == 0x06 {
            if s.len() >= 2 { Some((ValueV::Boolean(s[1] != 0), 2)) } else { None }
        } else if tag == 0x07 {
            if s.len() >= 9 && date_valid(le_u32_at(s, 1) as i32, le_u16_at(s, 5), le_u16_at(s, 7)) {
                Some(
                    (
                        ValueV::Date(
                            Date {
                                year: le_u32_at(s, 1) as i32,
                                month: le_u16_at(s, 5),
                                day: le_u16_at(s, 7),
                            },
                        ),
                        9,
                    ),
                )
            } else {
                None
            }
        } else if tag == 0x08 {
            if s.len() >= 13 && timestamp_valid(le_u64(s, 1) as i64, le_u32_at(s, 9)) {
                Some(
                    (
                        ValueV::DateTime(
                            DateTime { secs: le_u64(s, 1) as i64, nanos: le_u32_at(s, 9) },
                        ),
                        13,
                    ),
                )
            } else {
                None
            }
        } else if tag == 0x09 {
            if s.len() >= 3 && s.len() >= 3 + le_u16_at(s, 1) {
                Some(
                    (
                        ValueV::Blob(s.subrange(3, 3 + le_u16_at(s, 1))),
                        (3 + le_u16_at(s, 1)) as nat,
                    ),
                )
            } else {
                None
            }
        } else if tag == 0x0A {
            if s.len() >= 2 { Some((ValueV::Byte(s[1]), 2)) } else { None }
        } else {
            None
        }
    }
}

/// The values encoded back to back in `s`, if all of `s` is well formed.
pub open spec fn decode_tuple_spec(s: Seq<u8>) -> Option<Seq<ValueV>>
    decreases s.len(),
{
    if s.len() == 0 {
        Some(Seq::empty())
    } else {
        match decode_value_spec(s) {
            Some((v, n)) => if 0 < n <= s.len() {
                match decode_tuple_spec(s.subrange(n as int, s.len() as int)) {
                    Some(rest) => Some(seq![v] + rest),
                    None => None,
                }
            } else {
                None
            },
            None => None,
        }
    }
}


pub proof fn lemma_u16_round(x: u16)
    ensures
        le_u16((x & 0xff) as u8, (x >> 8u16) as u8) == x,
{
    assert(((((x & 0xff) as u8) as u16) | ((((x >> 8u16) as u8) as u16) << 8u16)) == x)
        by (bit_vector);
}

proof fn lemma_u32_round(x: u32)
    ensures
        le_u32_at(u32_le(x), 0) == x,
{
    assert(((((x & 0xff) as u8) as u32) | (((((x >> 8u32) & 0xff) as u8) as u32) << 8u32) | (
    ((((x >> 16u32) & 0xff) as u8) as u32) << 16u32) | ((((x >> 24u32) as u8) as u32) << 24u32))
        == x) by (bit_vector);
}

proof fn lemma_u64_round(x: u64)
    ensures
        le_u64(u64_le(x), 0) == x,
{
    assert(((((x & 0xff) as u8) as u64) | (((((x >> 8u64) & 0xff) as u8) as u64) << 8u64) | (
    ((((x >> 16u64) & 0xff) as u8) as u64) << 16u64) | (((((x >> 24u64) & 0xff) as u8) as u64)
        << 24u64) | (((((x >> 32u64) & 0xff) as u8) as u64) << 32u64) | (((((x >> 40u64)
        & 0xff) as u8) as u64) << 40u64) | (((((x >> 48u64) & 0xff) as u8) as u64) << 48u64) | ((((
    x >> 56u64) as u8) as u64) << 56u64)) == x) by (bit_vector);
}

proof fn lemma_i32_round(x: i32)
    ensures
        (x as u32) as i32 == x,
{
    assert((x as u32) as i32 == x) by (bit_vector);
}

proof fn lemma_i64_round(x: i64)
    ensures
        (x as u64) as i64 == x,
{
    assert((x as u64) as i64 == x) by (bit_vector);
}

proof fn lemma_small_u16(n: int)
    requires
        0 <= n <= 65535,
    ensures
        (n as u16) as int == n,
{
}

/// Decoding the front of `value_bytes(v) + rest` gives `v` back, with the
/// length of its encoding.
pub proof fn lemma_value_round_trip(v: ValueV, rest: Seq<u8>)
    requires
        value_wf(v),
    ensures
        decode_value_spec(value_bytes(v) + rest) == Some((v, value_bytes(v).len())),
{
    let s = value_bytes(v) + rest;
    match v {
        ValueV::Null => {},
        ValueV::Int(i) => {
            lemma_u32_round(i as u32);
            lemma_i32_round(i);
            assert(le_u32_at(s, 1) == le_u32_at(u32_le(i as u32), 0));
        },
        ValueV::Long(l) => {
            lemma_u64_round(l as u64);
            lemma_i64_round(l);
            assert(le_u64(s, 1) == le_u64(u64_le(l as u64), 0));
        },
        ValueV::Float(f) => {
            lemma_u32_round(f);
            assert(le_u32_at(s, 1) == le_u32_at(u32_le(f), 0));
        },
        ValueV::Double(d) => {
            lemma_u64_round(d);
            assert(le_u64(s, 1) == le_u64(u64_le(d), 0));
        },
        ValueV::Text(t) => {
            let e = encode_utf8(t);
            let n = e.len() as u16;
            lemma_small_u16(e.len() as int);
            lemma_u16_round(n);
            assert(le_u16_at(s, 1) == n);
            assert(s.subrange(3, 3 + n as int) =~= e);
            encode_utf8_valid_utf8(t);
            encode_utf8_decode_utf8(t);
        },
        ValueV::Boolean(b) => {},
        ValueV::Date(d) => {
            lemma_u32_round(d.year as u32);
            lemma_i32_round(d.year);
            lemma_u16_round(d.month);
            lemma_u16_round(d.day);
            assert(le_u32_at(s, 1) == le_u32_at(u32_le(d.year as u32), 0));
            assert(le_u16_at(s, 5) == d.month);
            assert(le_u16_at(s, 7) == d.day);
        },
        ValueV::DateTime(t) => {
            lemma_u64_round(t.secs as u64);
            lemma_i64_round(t.secs);
            lemma_u32_round(t.nanos);
            assert(le_u64(s, 1) == le_u64(u64_le(t.secs as u64), 0));
            assert(le_u32_at(s, 9) == le_u32_at(u32_le(t.nanos), 0));
        },
        ValueV::Blob(b) => {
            let n = b.len() as u16;
            lemma_small_u16(b.len() as int);
            lemma_u16_round(n);
            assert(le_u16_at(s, 1) == n);
            assert(s.subrange(3, 3 + n as int) =~= b);
        },
        ValueV::Byte(b) => {},
    }
}

/// Decoding the encoding of a well-formed tuple gives the tuple back.
pub proof fn lemma_tuple_round_trip(t: Seq<ValueV>)
    requires
        tuple_wf(t),
    ensures
        decode_tuple_spec(tuple_bytes(t)) == Some(t),
    decreases t.len(),
{
    if t.len() > 0 {
        let s = tuple_bytes(t);
        let tail = t.drop_first();
        assert(tuple_wf(tail)) by {
            assert forall|i: int| 0 <= i < tail.len() implies value_wf(#[trigger] tail[i]) by {
                assert(tail[i] == t[i + 1]);
            }
        }
        assert(value_wf(t[0]));
        lemma_value_round_trip(t[0], tuple_bytes(tail));
        let n = value_bytes(t[0]).len();
        assert(s.subrange(n as int, s.len() as int) =~= tuple_bytes(tail));
        lemma_tuple_round_trip(tail);
        assert(seq![t[0]] + tail =~= t);
    }
}


proof fn lemma_tuple_bytes_push(a: Seq<ValueV>, x: ValueV)
    ensures
        tuple_bytes(a.push(x)) == tuple_bytes(a) + value_bytes(x),
    decreases a.len(),
{
    if a.len() == 0 {
        assert(a.push(x).drop_first() =~= Seq::<ValueV>::empty());
        assert(tuple_bytes(Seq::<ValueV>::empty()) =~= Seq::<u8>::empty());
        assert(a.push(x)[0] == x);
        assert(tuple_bytes(a.push(x)) =~= value_bytes(x) + Seq::<u8>::empty());
        assert(tuple_bytes(a) =~= Seq::<u8>::empty());
    } else {
        assert(a.push(x).drop_first() =~= a.drop_first().push(x));
        lemma_tuple_bytes_push(a.drop_first(), x);
        assert(tuple_bytes(a.push(x)) =~= tuple_bytes(a) + value_bytes(x));
    }
}

fn push_u16(buf: &mut Vec<u8>, x: u16)
    ensures
        final(buf)@ == old(buf)@ + u16_le(x),
{
    buf.push((x & 0xff) as u8);
    buf.push((x >> 8u16) as u8);
    assert(final(buf)@ =~= old(buf)@ + u16_le(x));
}

fn push_u32(buf: &mut Vec<u8>, x: u32)
    ensures
        final(buf)@ == old(buf)@ + u32_le(x),
{
    buf.push((x & 0xff) as u8);
    buf.push(((x >> 8u32) & 0xff) as u8);
    buf.push(((x >> 16u32) & 0xff) as u8);
    buf.push((x >> 24u32) as u8);
    assert(final(buf)@ =~= old(buf)@ + u32_le(x));
}

fn push_u64(buf: &mut Vec<u8>, x: u64)
    ensures
        final(buf)@ == old(buf)@ + u64_le(x),
{
    buf.push((x & 0xff) as u8);
    buf.push(((x >> 8u64) & 0xff) as u8);
    buf.push(((x >> 16u64) & 0xff) as u8);
    buf.push(((x >> 24u64) & 0xff) as u8);
    buf.push(((x >> 32u64) & 0xff) as u8);
    buf.push(((x >> 40u64) & 0xff) as u8);
    buf.push(((x >> 48u64) & 0xff) as u8);
    buf.push((x >> 56u64) as u8);
    assert(final(buf)@ =~= old(buf)@ + u64_le(x));
}

fn push_all(buf: &mut Vec<u8>, b: &[u8])
    ensures
        final(buf)@ == old(buf)@ + b@,
{
    let mut i: usize = 0;
    while i < b.len()
        invariant
            i <= b@.len(),
            buf@ == old(buf)@ + b@.take(i as int),
        decreases b@.len() - i,
    {
        buf.push(b[i]);
        i = i + 1;
        assert(buf@ =~= old(buf)@ + b@.take(i as int));
    }
    assert(b@.take(i as int) =~= b@);
}

pub fn read_u16(data: &Vec<u8>, at: usize) -> (r: u16)
    requires
        at + 2 <= data@.len(),
    ensures
        r == le_u16_at(data@, at as int),
{
    let _n = data.len();
    let b0 = data[at];
    let b1 = data[at + 1];
    assert((b0 as u16) | ((b1 as u16) << 8u16) == (b0 as u16) + (b1 as u16) * 256) by (bit_vector);
    (b0 as u16) + (b1 as u16) * 256
}

pub fn read_u32(data: &Vec<u8>, at: usize) -> (r: u32)
    requires
        at + 4 <= data@.len(),
    ensures
        r == le_u32_at(data@, at as int),
{
    let _n = data.len();
    let b0 = data[at] as u32;
    let b1 = data[at + 1] as u32;
    let b2 = data[at + 2] as u32;
    let b3 = data[at + 3] as u32;
    assert(b0 < 256 && b1 < 256 && b2 < 256 && b3 < 256 ==> b0 | (b1 << 8u32) | (b2 << 16u32) | (b3
        << 24u32) == b0 + b1 * 0x100 + b2 * 0x1_0000 + b3 * 0x100_0000) by (bit_vector);
    b0 + b1 * 0x100 + b2 * 0x1_0000 + b3 * 0x100_0000
}

pub fn read_u64(data: &Vec<u8>, at: usize) -> (r: u64)
    requires
        at + 8 <= data@.len(),
    ensures
        r == le_u64(data@, at as int),
{
    let _n = data.len();
    let lo = read_u32(data, at) as u64;
    let hi = read_u32(data, at + 4) as u64;
    let ghost s = data@;
    let ghost i = at as int;
    let b0 = data[at] as u64;
    let b1 = data[at + 1] as u64;
    let b2 = data[at + 2] as u64;
    let b3 = data[at + 3] as u64;
    let b4 = data[at + 4] as u64;
    let b5 = data[at + 5] as u64;
    let b6 = data[at + 6] as u64;
    let b7 = data[at + 7] as u64;
    assert(lo == b0 | (b1 << 8u64) | (b2 << 16u64) | (b3 << 24u64)) by {
        let c0 = b0 as u32;
        let c1 = b1 as u32;
        let c2 = b2 as u32;
        let c3 = b3 as u32;
        assert(c0 < 256 && c1 < 256 && c2 < 256 && c3 < 256 ==> (c0 | (c1 << 8u32) | (c2 << 16u32) | (
        c3 << 24u32)) as u64 == (c0 as u64) | ((c1 as u64) << 8u64) | ((c2 as u64) << 16u64) | ((
        c3 as u64) << 24u64)) by (bit_vector);
    }
    assert(hi == b4 | (b5 << 8u64) | (b6 << 16u64) | (b7 << 24u64)) by {
        let c0 = b4 as u32;
        let c1 = b5 as u32;
        let c2 = b6 as u32;
        let c3 = b7 as u32;
        assert(c0 < 256 && c1 < 256 && c2 < 256 && c3 < 256 ==> (c0 | (c1 << 8u32) | (c2 << 16u32) | (
        c3 << 24u32)) as u64 == (c0 as u64) | ((c1 as u64) << 8u64) | ((c2 as u64) << 16u64) | ((
        c3 as u64) << 24u64)) by (bit_vector);
    }
    assert(b0 < 256 && b1 < 256 && b2 < 256 && b3 < 256 && b4 < 256 && b5 < 256 && b6 < 256 && b7
        < 256 ==> (b0 | (b1 << 8u64) | (b2 << 16u64) | (b3 << 24u64)) + (b4 | (b5 << 8u64) | (b6
        << 16u64) | (b7 << 24u64)) * 0x1_0000_0000 == b0 | (b1 << 8u64) | (b2 << 16u64) | (b3
        << 24u64) | (b4 << 32u64) | (b5 << 40u64) | (b6 << 48u64) | (b7 << 56u64)) by (bit_vector);
    assert(hi < 0x1_0000_0000) by {
        assert(b4 < 256 && b5 < 256 && b6 < 256 && b7 < 256 ==> b4 | (b5 << 8u64) | (b6 << 16u64) | (
        b7 << 24u64) < 0x1_0000_0000) by (bit_vector);
    }
    assert(lo < 0x1_0000_0000) by {
        assert(b0 < 256 && b1 < 256 && b2 < 256 && b3 < 256 ==> b0 | (b1 << 8u64) | (b2 << 16u64) | (
        b3 << 24u64) < 0x1_0000_0000) by (bit_vector);
    }
    lo + hi * 0x1_0000_0000
}

fn copy_range(data: &Vec<u8>, start: usize, end: usize) -> (r: Vec<u8>)
    requires
        start <= end <= data@.len(),
    ensures
        r@ == data@.subrange(start as int, end as int),
{
    let mut r: Vec<u8> = Vec::with_capacity(end - start);
    let mut i: usize = start;
    while i < end
        invariant
            start <= i <= end,
            end <= data@.len(),
            r@ == data@.subrange(start as int, i as int),
        decreases end - i,
    {
        r.push(data[i]);
        i = i + 1;
        assert(r@ =~= data@.subrange(start as int, i as int));
    }
    r
}

impl Value {
    /// The one-byte tag of this value's kind.
    pub fn id(&self) -> (r: u8)
        ensures
            r == value_tag(self@),
    {
        match self {
            Value::Null => 0x00,
            Value::Int(_) => 0x01,
            Value::Long(_) => 0x02,
            Value::Float(_) => 0x03,
            Value::Double(_) => 0x04,
            Value::Text(_) => 0x05,
            Value::Boolean(_) => 0x06,
            Value::Date(_) => 0x07,
            Value::DateTime(_) => 0x08,
            Value::Blob(_) => 0x09,
            Value::Byte(_) => 0x0A,
        }
    }

    /// The number of bytes of this value's encoding.
    pub fn get_size(&self) -> (r: usize)
        requires
            value_fits(self@),
        ensures
            r == value_bytes(self@).len(),
    {
        match self {
            Value::Int(_) => 5,
            Value::Float(_) => 5,
            Value::Boolean(_) => 2,
            Value::Text(s) => 3 + s.as_str().as_bytes().len(),
            Value::Blob(b) => 3 + b.len(),
            Value::Date(_) => 9,
            Value::DateTime(_) => 13,
            Value::Null => 1,
            Value::Long(_) => 9,
            Value::Double(_) => 9,
            Value::Byte(_) => 2,
        }
    }

    /// Appends this value's encoding to `buf`.
    pub fn to_bytes_into(&self, buf: &mut Vec<u8>)
        requires
            value_fits(self@),
        ensures
            final(buf)@ == old(buf)@ + value_bytes(self@),
    {
        let ghost start = buf@;
        buf.push(self.id());
        match self {
            Value::Null => {},
            Value::Int(i) => push_u32(buf, *i as u32),
            Value::Long(l) => push_u64(buf, *l as u64),
            Value::Float(f) => push_u32(buf, *f),
            Value::Double(d) => push_u64(buf, *d),
            Value::Text(s) => {
                let bytes = s.as_str().as_bytes();
                push_u16(buf, bytes.len() as u16);
                push_all(buf, bytes);
            },
            Value::Boolean(b) => buf.push(if *b { 1u8 } else { 0u8 }),
            Value::Date(d) => {
                push_u32(buf, d.year as u32);
                push_u16(buf, d.month);
                push_u16(buf, d.day);
            },
            Value::DateTime(t) => {
                push_u64(buf, t.secs as u64);
                push_u32(buf, t.nanos);
            },
            Value::Blob(b) => {
                push_u16(buf, b.len() as u16);
                push_all(buf, b.as_slice());
            },
            Value::Byte(b) => buf.push(*b),
        }
        assert(buf@ =~= start + value_bytes(self@));
    }

    /// Decodes the value that starts at `at`, reading no further than `end`;
    /// gives the value and the number of bytes it took.
    pub fn read_from_bytes(data: &Vec<u8>, at: usize, end: usize) -> (r: Option<(Value, usize)>)
        requires
            at <= end <= data@.len(),
        ensures
            match decode_value_spec(data@.subrange(at as int, end as int)) {
                None => r.is_none(),
                Some((v, n)) => r matches Some((w, m)) && w@ == v && m == n,
            },
    {
        let ghost s = data@.subrange(at as int, end as int);
        if at >= end {
            return None;
        }
        let len = end - at;
        let tag = data[at];
        if tag == 0x00 {
            Some((Value::Null, 1))
        } else if tag == 0x01 {
            if len >= 5 {
                let x = read_u32(data, at + 1);
                assert(x == le_u32_at(s, 1));
                Some((Value::Int(x as i32), 5))
            } else {
                None
            }
        } else if tag == 0x02 {
            if len >= 9 {
                let x = read_u64(data, at + 1);
                assert(x == le_u64(s, 1));
                Some((Value::Long(x as i64), 9))
            } else {
                None
            }
        } else if tag == 0x03 {
            if len >= 5 {
                let x = read_u32(data, at + 1);
                assert(x == le_u32_at(s, 1));
                Some((Value::Float(x), 5))
            } else {
                None
            }
        } else if tag == 0x04 {
            if len >= 9 {
                let x = read_u64(data, at + 1);
                assert(x == le_u64(s, 1));
                Some((Value::Double(x), 9))
            } else {
                None
            }
        } else if tag == 0x05 {
            if len < 3 {
                return None;
            }
            let n = read_u16(data, at + 1) as usize;
            assert(n == le_u16_at(s, 1));
            if len < 3 + n {
                return None;
            }
            let bytes = copy_range(data, at + 3, at + 3 + n);
            assert(bytes@ =~= s.subrange(3, 3 + n as int));
            Some((Value::Text(text_from_utf8_lossy(bytes)), 3 + n))
        } else if tag == 0x06 {
            if len >= 2 {
                Some((Value::Boolean(data[at + 1] != 0), 2))
            } else {
                None
            }
        } else if tag == 0x07 {
            if len < 9 {
                return None;
            }
            let year = read_u32(data, at + 1) as i32;
            let month = read_u16(data, at + 5);
            let day = read_u16(data, at + 7);
            assert(year == le_u32_at(s, 1) as i32);
            assert(month == le_u16_at(s, 5));
            assert(day == le_u16_at(s, 7));
            match Date::new(year, month, day) {
                Some(d) => Some((Value::Date(d), 9)),
                None => None,
            }
        } else if tag == 0x08 {
            if len < 13 {
                return None;
            }
            let secs = read_u64(data, at + 1) as i64;
            let nanos = read_u32(data, at + 9);
            assert(secs == le_u64(s, 1) as i64);
            assert(nanos == le_u32_at(s, 9));
            match DateTime::new(secs, nanos) {
                Some(t) => Some((Value::DateTime(t), 13)),
                None => None,
            }
        } else if tag == 0x09 {
            if len < 3 {
                return None;
            }
            let n = read_u16(data, at + 1) as usize;
            assert(n == le_u16_at(s, 1));
            if len < 3 + n {
                return None;
            }
            let bytes = copy_range(data, at + 3, at + 3 + n);
            assert(bytes@ =~= s.subrange(3, 3 + n as int));
            Some((Value::Blob(bytes), 3 + n))
        } else if tag == 0x0A {
            if len >= 2 {
                Some((Value::Byte(data[at + 1]), 2))
            } else {
                None
            }
        } else {
            None
        }
    }

    pub fn as_string(&self) -> (r: Option<String>)
        ensures
            match self@ {
                ValueV::Text(s) => r matches Some(t) && t@ == s,
                _ => r.is_none(),
            },
    {
        if let Value::Text(s) = self {
            Some(s.clone())
        } else {
            None
        }
    }

    pub fn as_int(&self) -> (r: Option<i32>)
        ensures
            match self@ {
                ValueV::Int(i) => r == Some(i),
                _ => r.is_none(),
            },
    {
        if let Value::Int(i) = self {
            Some(*i)
        } else {
            None
        }
    }

    pub fn as_boolean(&self) -> (r: Option<bool>)
        ensures
            match self@ {
                ValueV::Boolean(b) => r == Some(b),
                _ => r.is_none(),
            },
    {
        if let Value::Boolean(b) = self {
            Some(*b)
        } else {
            None
        }
    }

    pub fn as_byte(&self) -> (r: Option<u8>)
        ensures
            match self@ {
                ValueV::Byte(b) => r == Some(b),
                _ => r.is_none(),
            },
    {
        if let Value::Byte(b) = self {
            Some(*b)
        } else {
            None
        }
    }
}


/// A row: an ordered sequence of values.
#[derive(Clone, Debug)]
pub struct Tuple(pub Vec<Value>);

impl View for Tuple {
    type V = Seq<ValueV>;

    open spec fn view(&self) -> Seq<ValueV> {
        self.0@.map_values(|v: Value| v@)
    }
}

impl Tuple {
    /// The encoding of this tuple: its values' encodings, back to back.
    pub fn to_bytes(&self) -> (r: Vec<u8>)
        requires
            tuple_fits(self@),
        ensures
            r@ == tuple_bytes(self@),
    {
        let mut bytes: Vec<u8> = Vec::new();
        let mut i: usize = 0;
        while i < self.0.len()
            invariant
                i <= self.0@.len(),
                tuple_fits(self@),
                bytes@ == tuple_bytes(self@.take(i as int)),
            decreases self.0@.len() - i,
        {
            let ghost before = self@.take(i as int);
            assert(value_fits(self@[i as int]));
            self.0[i].to_bytes_into(&mut bytes);
            proof {
                lemma_tuple_bytes_push(before, self@[i as int]);
                assert(before.push(self@[i as int]) =~= self@.take(i + 1));
            }
            i = i + 1;
        }
        assert(self@.take(i as int) =~= self@);
        bytes
    }

    /// Decodes the values encoded back to back in `data[start..end]`.
    pub fn from_bytes_range(data: &Vec<u8>, start: usize, end: usize) -> (r: Option<Tuple>)
        requires
            start <= end <= data@.len(),
        ensures
            match decode_tuple_spec(data@.subrange(start as int, end as int)) {
                None => r.is_none(),
                Some(t) => r matches Some(u) && u@ == t,
            },
    {
        let mut values: Vec<Value> = Vec::new();
        let mut at: usize = start;
        while at < end
            invariant
                start <= at <= end,
                end <= data@.len(),
                decode_tuple_spec(data@.subrange(start as int, end as int)) == match decode_tuple_spec(
                    data@.subrange(at as int, end as int),
                ) {
                    Some(rest) => Some(values@.map_values(|v: Value| v@) + rest),
                    None => None::<Seq<ValueV>>,
                },
            decreases end - at,
        {
            let ghost s = data@.subrange(at as int, end as int);
            match Value::read_from_bytes(data, at, end) {
                None => {
                    return None;
                },
                Some((v, n)) => {
                    if n == 0 || n > end - at {
                        return None;
                    }
                    let ghost old_values = values@.map_values(|v: Value| v@);
                    assert(s.subrange(n as int, s.len() as int) =~= data@.subrange(
                        (at + n) as int,
                        end as int,
                    ));
                    values.push(v);
                    at = at + n;
                    assert(values@.map_values(|v: Value| v@) =~= old_values.push(v@));
                    proof {
                        match decode_tuple_spec(data@.subrange(at as int, end as int)) {
                            Some(rest) => {
                                assert(old_values + (seq![v@] + rest) =~= old_values.push(v@)
                                    + rest);
                            },
                            None => {},
                        }
                    }
                },
            }
        }
        assert(data@.subrange(at as int, end as int) =~= Seq::<u8>::empty());
        assert(values@.map_values(|v: Value| v@) + Seq::<ValueV>::empty() =~= values@.map_values(
            |v: Value| v@,
        ));
        Some(Tuple(values))
    }

    /// Decodes a whole buffer of back-to-back values.
    pub fn from_bytes(data: &Vec<u8>) -> (r: Option<Tuple>)
        ensures
            match decode_tuple_spec(data@) {
                None => r.is_none(),
                Some(t) => r matches Some(u) && u@ == t,
            },
    {
        assert(data@.subrange(0, data@.len() as int) =~= data@);
        Tuple::from_bytes_range(data, 0, data.len())
    }
}

/// The declared type of a column; its id is the tag of the matching value kind.
#[derive(Clone, Copy, Debug, PartialEq, Eq, Structural)]
pub enum DataType {
    Null,
    Int,
    Long,
    Float,
    Double,
    Text,
    Boolean,
    Date,
    DateTime,
    Blob,
    Byte,
}

pub open spec fn data_type_id(t: DataType) -> u8 {
    match t {
        DataType::Null => 0x00,
        DataType::Int => 0x01,
        DataType::Long => 0x02,
        DataType::Float => 0x03,
        DataType::Double => 0x04,
        DataType::Text => 0x05,
        DataType::Boolean => 0x06,
        DataType::Date => 0x07,
        DataType::DateTime => 0x08,
        DataType::Blob => 0x09,
        DataType::Byte => 0x0A,
    }
}

impl DataType {
    /// The type whose id is `id`, for ids 0 to 10.
    pub fn from_id(id: u8) -> (r: Option<DataType>)
        ensures
            r.is_some() == (id <= 0x0A),
            r matches Some(t) ==> data_type_id(t) == id,
    {
        match id {
            0x00 => Some(DataType::Null),
            0x01 => Some(DataType::Int),
            0x02 => Some(DataType::Long),
            0x03 => Some(DataType::Float),
            0x04 => Some(DataType::Double),
            0x05 => Some(DataType::Text),
            0x06 => Some(DataType::Boolean),
            0x07 => Some(DataType::Date),
            0x08 => Some(DataType::DateTime),
            0x09 => Some(DataType::Blob),
            0x0A => Some(DataType::Byte),
            _ => None,
        }
    }

    pub fn id(&self) -> (r: u8)
        ensures
            r == data_type_id(*self),
    {
        match self {
            DataType::Null => 0x00,
            DataType::Int => 0x01,
            DataType::Long => 0x02,
            DataType::Float => 0x03,
            DataType::Double => 0x04,
            DataType::Text => 0x05,
            DataType::Boolean => 0x06,
            DataType::Date => 0x07,
            DataType::DateTime => 0x08,
            DataType::Blob => 0x09,
            DataType::Byte => 0x0A,
        }
    }
}

/// Lexicographic order of byte strings: -1, 0 or 1.
pub open spec fn bytes_cmp(a: Seq<u8>, b: Seq<u8>) -> int
    decreases a.len(),
{
    if a.len() == 0 && b.len() == 0 {
        0
    } else if a.len() == 0 {
        -1
    } else if b.len() == 0 {
        1
    } else if a[0] < b[0] {
        -1
    } else if a[0] > b[0] {
        1
    } else {
        bytes_cmp(a.drop_first(), b.drop_first())
    }
}

/// Orders byte strings lexicographically.
pub fn compare_bytes(a: &[u8], b: &[u8]) -> (r: i8)
    ensures
        r as int == bytes_cmp(a@, b@),
{
    let mut i: usize = 0;
    assert(a@.skip(0) =~= a@);
    assert(b@.skip(0) =~= b@);
    while i < a.len() && i < b.len() && a[i] == b[i]
        invariant
            i <= a@.len(),
            i <= b@.len(),
            bytes_cmp(a@, b@) == bytes_cmp(a@.skip(i as int), b@.skip(i as int)),
        decreases a@.len() - i,
    {
        assert(a@.skip(i as int).drop_first() =~= a@.skip(i + 1));
        assert(b@.skip(i as int).drop_first() =~= b@.skip(i + 1));
        i = i + 1;
    }
    let ghost sa = a@.skip(i as int);
    let ghost sb = b@.skip(i as int);
    if i == a.len() && i == b.len() {
        assert(sa.len() == 0 && sb.len() == 0);
        0
    } else if i == a.len() {
        -1
    } else if i == b.len() {
        1
    } else if a[i] < b[i] {
        assert(sa[0] == a@[i as int]);
        assert(sb[0] == b@[i as int]);
        -1
    } else {
        assert(sa[0] == a@[i as int]);
        assert(sb[0] == b@[i as int]);
        1
    }
}

/// Whether two strings hold the same characters.
pub fn text_eq(a: &str, b: &str) -> (r: bool)
    ensures
        r == (a@ == b@),
{
    let c = compare_bytes(a.as_bytes(), b.as_bytes());
    proof {
        lemma_bytes_cmp_zero(encode_utf8(a@), encode_utf8(b@));
        encode_utf8_decode_utf8(a@);
        encode_utf8_decode_utf8(b@);
    }
    c == 0
}

proof fn lemma_bytes_cmp_zero(a: Seq<u8>, b: Seq<u8>)
    ensures
        (bytes_cmp(a, b) == 0) == (a == b),
    decreases a.len(),
{
    if a.len() > 0 && b.len() > 0 && a[0] == b[0] {
        lemma_bytes_cmp_zero(a.drop_first(), b.drop_first());
        if a.drop_first() == b.drop_first() {
            assert(a =~= seq![a[0]] + a.drop_first());
            assert(b =~= seq![b[0]] + b.drop_first());
        }
        if a == b {
            assert(a.drop_first() =~= b.drop_first());
        }
    } else if a.len() > 0 && b.len() > 0 {
        assert(a[0] != b[0]);
    } else if a.len() == 0 && b.len() == 0 {
        assert(a =~= b);
    }
}

/// Whether `pat` occurs in `text` as a contiguous run.
pub open spec fn occurs_in(pat: Seq<u8>, text: Seq<u8>) -> bool {
    exists|i: int| 0 <= i && i + pat.len() <= text.len() && #[trigger] text.subrange(i, i + pat.len()) == pat
}

/// Substring search on bytes.
pub fn contains_bytes(text: &[u8], pat: &[u8]) -> (r: bool)
    ensures
        r == occurs_in(pat@, text@),
{
    if pat.len() > text.len() {
        return false;
    }
    let last = text.len() - pat.len();
    let mut i: usize = 0;
    while i <= last
        invariant
            last + pat@.len() == text@.len(),
            text@.len() <= usize::MAX,
            i <= last + 1,
            forall|k: int| 0 <= k < i ==> #[trigger] text@.subrange(k, k + pat@.len()) != pat@,
        decreases last + 1 - i,
    {
        let mut j: usize = 0;
        while j < pat.len() && text[i + j] == pat[j]
            invariant
                i <= last,
                last + pat@.len() == text@.len(),
                text@.len() <= usize::MAX,
                j <= pat@.len(),
                forall|m: int| 0 <= m < j ==> text@[i + m] == pat@[m],
            decreases pat@.len() - j,
        {
            j = j + 1;
        }
        if j == pat.len() {
            assert(text@.subrange(i as int, i + pat@.len()) =~= pat@);
            return true;
        }
        assert(text@.subrange(i as int, i + pat@.len())[j as int] != pat@[j as int]);
        i = i + 1;
    }
    proof {
        assert forall|k: int| 0 <= k && k + pat@.len() <= text@.len() implies #[trigger] text@.subrange(k, k + pat@.len()) != pat@ by {}
    }
    false
}

/// The position of IEEE-754 single bits in the total order of floats.
pub open spec fn float_key32(b: u32) -> int {
    if b >= 0x8000_0000 { 0xFFFF_FFFF - b } else { b + 0x8000_0000 }
}

/// The position of IEEE-754 double bits in the total order of floats.
pub open spec fn float_key64(b: u64) -> int {
    if b >= 0x8000_0000_0000_0000 { 0xFFFF_FFFF_FFFF_FFFF - b } else { b + 0x8000_0000_0000_0000 }
}

pub open spec fn int_cmp(a: int, b: int) -> int {
    if a < b { -1 } else if a > b { 1 } else { 0 }
}

/// The total order of values: by kind in tag order, then by payload. Text
/// and blobs compare bytewise, floats by the IEEE-754 total order, dates and
/// instants chronologically.
pub open spec fn value_cmp(a: ValueV, b: ValueV) -> int {
    if value_tag(a) != value_tag(b) {
        int_cmp(value_tag(a) as int, value_tag(b) as int)
    } else {
        match (a, b) {
            (ValueV::Int(x), ValueV::Int(y)) => int_cmp(x as int, y as int),
            (ValueV::Long(x), ValueV::Long(y)) => int_cmp(x as int, y as int),
            (ValueV::Float(x), ValueV::Float(y)) => int_cmp(float_key32(x), float_key32(y)),
            (ValueV::Double(x), ValueV::Double(y)) => int_cmp(float_key64(x), float_key64(y)),
            (ValueV::Text(x), ValueV::Text(y)) => bytes_cmp(encode_utf8(x), encode_utf8(y)),
            (ValueV::Boolean(x), ValueV::Boolean(y)) => int_cmp(
                if x { 1int } else { 0int },
                if y { 1int } else { 0int },
            ),
            (ValueV::Date(x), ValueV::Date(y)) => if x.year != y.year {
                int_cmp(x.year as int, y.year as int)
            } else if x.month != y.month {
                int_cmp(x.month as int, y.month as int)
            } else {
                int_cmp(x.day as int, y.day as int)
            },
            (ValueV::DateTime(x), ValueV::DateTime(y)) => if x.secs != y.secs {
                int_cmp(x.secs as int, y.secs as int)
            } else {
                int_cmp(x.nanos as int, y.nanos as int)
            },
            (ValueV::Blob(x), ValueV::Blob(y)) => bytes_cmp(x, y),
            (ValueV::Byte(x), ValueV::Byte(y)) => int_cmp(x as int, y as int),
            _ => 0,
        }
    }
}

fn cmp_int(a: i64, b: i64) -> (r: i8)
    ensures
        r as int == int_cmp(a as int, b as int),
{
    if a < b { -1 } else if a > b { 1 } else { 0 }
}

fn cmp_uint(a: u64, b: u64) -> (r: i8)
    ensures
        r as int == int_cmp(a as int, b as int),
{
    if a < b { -1 } else if a > b { 1 } else { 0 }
}

fn key32(b: u32) -> (r: u64)
    ensures
        r as int == float_key32(b),
{
    if b >= 0x8000_0000 { (0xFFFF_FFFF - b) as u64 } else { b as u64 + 0x8000_0000 }
}

fn key64(b: u64) -> (r: u64)
    ensures
        r as int == float_key64(b),
{
    if b >= 0x8000_0000_0000_0000 { 0xFFFF_FFFF_FFFF_FFFF - b } else { b + 0x8000_0000_0000_0000 }
}

impl Value {
    /// Compares two values in their total order: -1, 0 or 1.
    pub fn compare(&self, other: &Value) -> (r: i8)
        ensures
            r as int == value_cmp(self@, other@),
    {
        let ta = self.id();
        let tb = other.id();
        if ta != tb {
            return cmp_uint(ta as u64, tb as u64);
        }
        match (self, other) {
            (Value::Int(x), Value::Int(y)) => cmp_int(*x as i64, *y as i64),
            (Value::Long(x), Value::Long(y)) => cmp_int(*x, *y),
            (Value::Float(x), Value::Float(y)) => cmp_uint(key32(*x), key32(*y)),
            (Value::Double(x), Value::Double(y)) => cmp_uint(key64(*x), key64(*y)),
            (Value::Text(x), Value::Text(y)) => compare_bytes(x.as_str().as_bytes(), y.as_str().as_bytes()),
            (Value::Boolean(x), Value::Boolean(y)) => cmp_uint(
                if *x { 1 } else { 0 },
                if *y { 1 } else { 0 },
            ),
            (Value::Date(x), Value::Date(y)) => if x.year != y.year {
                cmp_int(x.year as i64, y.year as i64)
            } else if x.month != y.month {
                cmp_uint(x.month as u64, y.month as u64)
            } else {
                cmp_uint(x.day as u64, y.day as u64)
            },
            (Value::DateTime(x), Value::DateTime(y)) => if x.secs != y.secs {
                cmp_int(x.secs, y.secs)
            } else {
                cmp_uint(x.nanos as u64, y.nanos as u64)
            },
            (Value::Blob(x), Value::Blob(y)) => compare_bytes(x.as_slice(), y.as_slice()),
            (Value::Byte(x), Value::Byte(y)) => cmp_uint(*x as u64, *y as u64),
            _ => 0,
        }
    }

    /// A copy of this value.
    pub fn copy(&self) -> (r: Value)
        ensures
            r@ == self@,
    {
        match self {
            Value::Null => Value::Null,
            Value::Int(i) => Value::Int(*i),
            Value::Long(l) => Value::Long(*l),
            Value::Float(f) => Value::Float(*f),
            Value::Double(d) => Value::Double(*d),
            Value::Text(s) => Value::Text(s.clone()),
            Value::Boolean(b) => Value::Boolean(*b),
            Value::Date(d) => Value::Date(*d),
            Value::DateTime(t) => Value::DateTime(*t),
            Value::Blob(b) => {
                let c = copy_range(b, 0, b.len());
                assert(c@ =~= b@);
                Value::Blob(c)
            },
            Value::Byte(b) => Value::Byte(*b),
        }
    }
}

impl Tuple {
    /// A copy of this tuple.
    pub fn copy(&self) -> (r: Tuple)
        ensures
            r@ == self@,
    {
        let mut values: Vec<Value> = Vec::with_capacity(self.0.len());
        let mut i: usize = 0;
        while i < self.0.len()
            invariant
                i <= self.0@.len(),
                values@.len() == i,
                forall|k: int| 0 <= k < i ==> (#[trigger] values@[k])@ == self.0@[k]@,
            decreases self.0@.len() - i,
        {
            let v = self.0[i].copy();
            values.push(v);
            i = i + 1;
        }
        assert(values@.map_values(|v: Value| v@) =~= self@);
        Tuple(values)
    }
}

/// Whether a value fits its encoding and chrono accepts its date or instant.
pub fn value_is_wf(v: &Value) -> (r: bool)
    ensures
        r == value_wf(v@),
{
    match v {
        Value::Text(s) => s.as_str().as_bytes().len() <= MAX_VAR_LEN,
        Value::Blob(b) => b.len() <= MAX_VAR_LEN,
        Value::Date(d) => check_date(d.year, d.month, d.day),
        Value::DateTime(t) => check_timestamp(t.secs, t.nanos),
        _ => true,
    }
}

/// Whether every value of a tuple is well formed.
pub fn tuple_is_wf(t: &Tuple) -> (r: bool)
    ensures
        r == tuple_wf(t@),
{
    let mut i: usize = 0;
    while i < t.0.len()
        invariant
            i <= t.0@.len(),
            forall|k: int| 0 <= k < i ==> value_wf(#[trigger] t@[k]),
        decreases t.0@.len() - i,
    {
        if !value_is_wf(&t.0[i]) {
            assert(!value_wf(t@[i as int]));
            return false;
        }
        i = i + 1;
    }
    true
}

} // verus!
