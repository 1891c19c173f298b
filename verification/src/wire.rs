use vstd::prelude::*;
use vstd::slice::slice_subrange;
use vstd::utf8::{decode_utf8, encode_utf8, valid_utf8};

use paper_utils::stream::{StreamError, StreamReader};

verus! {

/// The little-endian bytes of a `u32`.
pub open spec fn u32_le(v: u32) -> Seq<u8> {
    seq![
        (v & 0xff) as u8,
        ((v >> 8) & 0xff) as u8,
        ((v >> 16) & 0xff) as u8,
        ((v >> 24) & 0xff) as u8,
    ]
}

/// The little-endian bytes of a `u64`.
pub open spec fn u64_le(v: u64) -> Seq<u8> {
    seq![
        (v & 0xff) as u8,
        ((v >> 8) & 0xff) as u8,
        ((v >> 16) & 0xff) as u8,
        ((v >> 24) & 0xff) as u8,
        ((v >> 32) & 0xff) as u8,
        ((v >> 40) & 0xff) as u8,
        ((v >> 48) & 0xff) as u8,
        ((v >> 56) & 0xff) as u8,
    ]
}

/// The `u32` whose little-endian bytes are the first four of `b`.
pub open spec fn u32_from_le(b: Seq<u8>) -> u32 {
    (b[0] as u32) | (b[1] as u32) << 8 | (b[2] as u32) << 16 | (b[3] as u32) << 24
}

/// The `u64` whose little-endian bytes are the first eight of `b`.
pub open spec fn u64_from_le(b: Seq<u8>) -> u64 {
    (b[0] as u64) | (b[1] as u64) << 8 | (b[2] as u64) << 16 | (b[3] as u64) << 24 | (b[4] as u64)
        << 32 | (b[5] as u64) << 40 | (b[6] as u64) << 48 | (b[7] as u64) << 56
}

/// A length-prefixed byte field: the length as a little-endian `u32`, then
/// the bytes. A length beyond `u32::MAX` is cut to its low 32 bits.
pub open spec fn buf_field(data: Seq<u8>) -> Seq<u8> {
    u32_le(data.len() as u32) + data
}

/// A length-prefixed text field: the UTF-8 bytes of the text as a byte field.
pub open spec fn str_field(text: Seq<char>) -> Seq<u8> {
    buf_field(encode_utf8(text))
}

/// The byte that stands for `true` on the wire (`!`).
pub open spec fn true_byte() -> u8 {
    33
}

/// The byte that stands for `false` on the wire (`?`).
pub open spec fn false_byte() -> u8 {
    63
}

/// The byte that stands for a boolean on the wire.
pub open spec fn bool_byte(f: bool) -> u8 {
    if f {
        true_byte()
    } else {
        false_byte()
    }
}

/// The outcome of reading one field at a position of a byte string: the
/// bytes ran out, the bytes up to the given end are not a valid field, or
/// the field's value and the position after it.
pub enum Field<T> {
    Short,
    Bad(int),
    Got(T, int),
}

/// Continues with `k` after a field that was read, passing on a failure.
pub open spec fn bind<A, B>(f: Field<A>, k: spec_fn(A, int) -> Field<B>) -> Field<B> {
    match f {
        Field::Short => Field::Short,
        Field::Bad(q) => Field::Bad(q),
        Field::Got(v, q) => k(v, q),
    }
}

/// A boolean: one byte, `!` or `?`.
pub open spec fn take_bool(b: Seq<u8>, p: int) -> Field<bool> {
    if p + 1 > b.len() {
        Field::Short
    } else if b[p] == true_byte() {
        Field::Got(true, p + 1)
    } else if b[p] == false_byte() {
        Field::Got(false, p + 1)
    } else {
        Field::Bad(p + 1)
    }
}

/// One byte.
pub open spec fn take_u8(b: Seq<u8>, p: int) -> Field<u8> {
    if p + 1 > b.len() {
        Field::Short
    } else {
        Field::Got(b[p], p + 1)
    }
}

/// A little-endian `u32`.
pub open spec fn take_u32(b: Seq<u8>, p: int) -> Field<u32> {
    if p + 4 > b.len() {
        Field::Short
    } else {
        Field::Got(u32_from_le(b.subrange(p, p + 4)), p + 4)
    }
}

/// A little-endian `u64`.
pub open spec fn take_u64(b: Seq<u8>, p: int) -> Field<u64> {
    if p + 8 > b.len() {
        Field::Short
    } else {
        Field::Got(u64_from_le(b.subrange(p, p + 8)), p + 8)
    }
}

/// A length-prefixed byte field.
pub open spec fn take_buf(b: Seq<u8>, p: int) -> Field<Seq<u8>> {
    match take_u32(b, p) {
        Field::Got(n, q) => if q + n > b.len() {
            Field::Short
        } else {
            Field::Got(b.subrange(q, q + n), q + n)
        },
        _ => Field::Short,
    }
}

/// A length-prefixed text field, which must hold valid UTF-8.
pub open spec fn take_string(b: Seq<u8>, p: int) -> Field<Seq<char>> {
    match take_buf(b, p) {
        Field::Got(x, q) => if valid_utf8(x) {
            Field::Got(decode_utf8(x), q)
        } else {
            Field::Bad(q)
        },
        Field::Short => Field::Short,
        Field::Bad(q) => Field::Bad(q),
    }
}

/// `r` failed with `f`.
pub open spec fn fails_with<T>(r: Result<T, ReadFailure>, f: ReadFailure) -> bool {
    r is Err && r->Err_0 == f
}

/// `r` succeeded with `v`.
pub open spec fn yields<T>(r: Result<T, ReadFailure>, v: T) -> bool {
    r is Ok && r->Ok_0 == v
}

/// The position after a field that was read, good or bad.
pub open spec fn end_of<T>(f: Field<T>) -> int {
    match f {
        Field::Short => 0,
        Field::Bad(q) => q,
        Field::Got(_, q) => q,
    }
}

/// A field read at `p` from bytes of length `len` gives `g` when more bytes
/// follow, if it gave `f` without them: once a field is read, good or bad,
/// later bytes do not change it, and it ends within the bytes it was read
/// from.
pub open spec fn stable<T>(f: Field<T>, g: Field<T>, p: int, len: int) -> bool {
    !(f is Short) ==> g == f && p <= end_of(f) <= len
}

pub proof fn lemma_bool_stable(b: Seq<u8>, e: Seq<u8>, p: int)
    requires
        0 <= p,
    ensures
        stable(take_bool(b, p), take_bool(b + e, p), p, b.len() as int),
{
}

pub proof fn lemma_u8_stable(b: Seq<u8>, e: Seq<u8>, p: int)
    requires
        0 <= p,
    ensures
        stable(take_u8(b, p), take_u8(b + e, p), p, b.len() as int),
{
}

pub proof fn lemma_u32_stable(b: Seq<u8>, e: Seq<u8>, p: int)
    requires
        0 <= p,
    ensures
        stable(take_u32(b, p), take_u32(b + e, p), p, b.len() as int),
{
    if p + 4 <= b.len() {
        assert((b + e).subrange(p, p + 4) =~= b.subrange(p, p + 4));
    }
}

pub proof fn lemma_u64_stable(b: Seq<u8>, e: Seq<u8>, p: int)
    requires
        0 <= p,
    ensures
        stable(take_u64(b, p), take_u64(b + e, p), p, b.len() as int),
{
    if p + 8 <= b.len() {
        assert((b + e).subrange(p, p + 8) =~= b.subrange(p, p + 8));
    }
}

pub proof fn lemma_buf_stable(b: Seq<u8>, e: Seq<u8>, p: int)
    requires
        0 <= p,
    ensures
        stable(take_buf(b, p), take_buf(b + e, p), p, b.len() as int),
{
    lemma_u32_stable(b, e, p);
    if let Field::Got(n, q) = take_u32(b, p) {
        if q + n <= b.len() {
            assert((b + e).subrange(q, q + n) =~= b.subrange(q, q + n));
        }
    }
}

pub proof fn lemma_string_stable(b: Seq<u8>, e: Seq<u8>, p: int)
    requires
        0 <= p,
    ensures
        stable(take_string(b, p), take_string(b + e, p), p, b.len() as int),
{
    lemma_buf_stable(b, e, p);
}

/// Reading back the little-endian bytes of a `u32` gives the `u32`.
pub proof fn lemma_u32_le_roundtrip(v: u32)
    ensures
        u32_from_le(u32_le(v)) == v,
        u32_le(v).len() == 4,
{
    let b = u32_le(v);
    let b0 = b[0];
    let b1 = b[1];
    let b2 = b[2];
    let b3 = b[3];
    assert(b0 == (v & 0xff) as u8 && b1 == ((v >> 8) & 0xff) as u8 && b2 == ((v >> 16) & 0xff) as u8
        && b3 == ((v >> 24) & 0xff) as u8 ==> (b0 as u32) | (b1 as u32) << 8 | (b2 as u32) << 16 | (
    b3 as u32) << 24 == v) by (bit_vector);
}

/// Reading back the little-endian bytes of a `u64` gives the `u64`.
pub proof fn lemma_u64_le_roundtrip(v: u64)
    ensures
        u64_from_le(u64_le(v)) == v,
        u64_le(v).len() == 8,
{
    let b = u64_le(v);
    let b0 = b[0];
    let b1 = b[1];
    let b2 = b[2];
    let b3 = b[3];
    let b4 = b[4];
    let b5 = b[5];
    let b6 = b[6];
    let b7 = b[7];
    assert(b0 == (v & 0xff) as u8 && b1 == ((v >> 8) & 0xff) as u8 && b2 == ((v >> 16) & 0xff) as u8
        && b3 == ((v >> 24) & 0xff) as u8 && b4 == ((v >> 32) & 0xff) as u8 && b5 == ((v >> 40)
        & 0xff) as u8 && b6 == ((v >> 48) & 0xff) as u8 && b7 == ((v >> 56) & 0xff) as u8 ==> (
    b0 as u64) | (b1 as u64) << 8 | (b2 as u64) << 16 | (b3 as u64) << 24 | (b4 as u64) << 32 | (
    b5 as u64) << 40 | (b6 as u64) << 48 | (b7 as u64) << 56 == v) by (bit_vector);
}

/// A byte field reads back as the bytes it was written from, when their
/// length fits the `u32` prefix: what a request writes as a value is what a
/// response holding the same field gives back.
pub proof fn law_buf_field_roundtrip(data: Seq<u8>, p: int, rest: Seq<u8>, before: Seq<u8>)
    requires
        data.len() <= u32::MAX,
        p == before.len(),
    ensures
        take_buf(before + buf_field(data) + rest, p) == Field::Got(data, p + 4 + data.len()),
{
    lemma_u32_le_roundtrip(data.len() as u32);
    let b = before + buf_field(data) + rest;
    assert(b.subrange(p, p + 4) =~= u32_le(data.len() as u32));
    assert(b.subrange(p + 4, p + 4 + data.len()) =~= data);
}

/// A text field reads back as the text it was written from, when the
/// length of its UTF-8 bytes fits the `u32` prefix.
pub proof fn law_str_field_roundtrip(text: Seq<char>, p: int, rest: Seq<u8>, before: Seq<u8>)
    requires
        encode_utf8(text).len() <= u32::MAX,
        p == before.len(),
    ensures
        take_string(before + str_field(text) + rest, p) == Field::Got(
            text,
            p + 4 + encode_utf8(text).len(),
        ),
{
    law_buf_field_roundtrip(encode_utf8(text), p, rest, before);
    vstd::utf8::encode_utf8_valid_utf8(text);
    vstd::utf8::encode_utf8_decode_utf8(text);
}

/// The part of `before + x + rest` that `x` takes is `x`'s.
pub proof fn lemma_middle_subrange(before: Seq<u8>, x: Seq<u8>, rest: Seq<u8>, a: int, e: int)
    requires
        0 <= a <= e <= x.len(),
    ensures
        (before + x + rest).subrange(before.len() + a, before.len() + e) == x.subrange(a, e),
{
    assert((before + x + rest).subrange(before.len() + a, before.len() + e) =~= x.subrange(a, e));
}

/// Concatenation regroups.
pub proof fn lemma_regroup(a: Seq<u8>, b: Seq<u8>, c: Seq<u8>)
    ensures
        a + b + c == a + (b + c),
        a + Seq::<u8>::empty() == a,
        (a + b).subrange(a.len() as int, (a.len() + b.len()) as int) == b,
        (a + b).subrange(0, a.len() as int) == a,
{
    assert(a + b + c =~= a + (b + c));
    assert(a + Seq::<u8>::empty() =~= a);
    assert((a + b).subrange(a.len() as int, (a.len() + b.len()) as int) =~= b);
    assert((a + b).subrange(0, a.len() as int) =~= a);
}

/// Regrouping a body of two parts around the second.
pub proof fn lemma_two_parts(before: Seq<u8>, x: Seq<u8>, y: Seq<u8>, rest: Seq<u8>)
    ensures
        before + (x + y) + rest == (before + x) + y + rest,
        before + (x + y) + rest == before + x + (y + rest),
{
    assert(before + (x + y) + rest =~= (before + x) + y + rest);
    assert(before + (x + y) + rest =~= before + x + (y + rest));
}

/// Regrouping a body of four parts around each part.
pub proof fn lemma_four_parts(
    before: Seq<u8>,
    x0: Seq<u8>,
    x1: Seq<u8>,
    x2: Seq<u8>,
    x3: Seq<u8>,
    rest: Seq<u8>,
)
    ensures
        ({
            let b = before + (x0 + x1 + x2 + x3) + rest;
            &&& b == before + x0 + (x1 + x2 + x3 + rest)
            &&& b == (before + x0) + x1 + (x2 + x3 + rest)
            &&& b == (before + x0 + x1) + x2 + (x3 + rest)
            &&& b == (before + x0 + x1 + x2) + x3 + rest
        }),
{
    let b = before + (x0 + x1 + x2 + x3) + rest;
    assert(b =~= before + x0 + (x1 + x2 + x3 + rest));
    assert(b =~= (before + x0) + x1 + (x2 + x3 + rest));
    assert(b =~= (before + x0 + x1) + x2 + (x3 + rest));
    assert(b =~= (before + x0 + x1 + x2) + x3 + rest);
}

/// Regrouping a body of six parts around each part.
pub proof fn lemma_six_parts(
    before: Seq<u8>,
    x0: Seq<u8>,
    x1: Seq<u8>,
    x2: Seq<u8>,
    x3: Seq<u8>,
    x4: Seq<u8>,
    x5: Seq<u8>,
    rest: Seq<u8>,
)
    ensures
        ({
            let b = before + (x0 + x1 + x2 + x3 + x4 + x5) + rest;
            &&& b == before + x0 + (x1 + x2 + x3 + x4 + x5 + rest)
            &&& b == (before + x0) + x1 + (x2 + x3 + x4 + x5 + rest)
            &&& b == (before + x0 + x1) + x2 + (x3 + x4 + x5 + rest)
            &&& b == (before + x0 + x1 + x2) + x3 + (x4 + x5 + rest)
            &&& b == (before + x0 + x1 + x2 + x3) + x4 + (x5 + rest)
            &&& b == (before + x0 + x1 + x2 + x3 + x4) + x5 + rest
        }),
{
    let b = before + (x0 + x1 + x2 + x3 + x4 + x5) + rest;
    assert(b =~= before + x0 + (x1 + x2 + x3 + x4 + x5 + rest));
    assert(b =~= (before + x0) + x1 + (x2 + x3 + x4 + x5 + rest));
    assert(b =~= (before + x0 + x1) + x2 + (x3 + x4 + x5 + rest));
    assert(b =~= (before + x0 + x1 + x2) + x3 + (x4 + x5 + rest));
    assert(b =~= (before + x0 + x1 + x2 + x3) + x4 + (x5 + rest));
    assert(b =~= (before + x0 + x1 + x2 + x3 + x4) + x5 + rest);
}

/// Several `u64`s, each as its little-endian bytes, one after another.
pub open spec fn u64s_bytes(vs: Seq<u64>) -> Seq<u8>
    decreases vs.len(),
{
    if vs.len() == 0 {
        Seq::empty()
    } else {
        u64s_bytes(vs.drop_last()) + u64_le(vs.last())
    }
}

/// The `i`-th eight bytes of a run of `u64`s are the `i`-th `u64`'s.
pub proof fn lemma_u64s_bytes(vs: Seq<u64>)
    ensures
        u64s_bytes(vs).len() == 8 * vs.len(),
        forall|i: int| 0 <= i < vs.len() ==> u64s_bytes(vs).subrange(8 * i, 8 * i + 8) == u64_le(#[trigger] vs[i]),
    decreases vs.len(),
{
    if vs.len() > 0 {
        let init = vs.drop_last();
        lemma_u64s_bytes(init);
        lemma_u64_le_roundtrip(vs.last());
        let x = u64s_bytes(init);
        let y = u64_le(vs.last());
        assert forall|i: int| 0 <= i < vs.len() implies u64s_bytes(vs).subrange(8 * i, 8 * i + 8) == u64_le(#[trigger] vs[i]) by {
            if i < init.len() {
                assert(init[i] == vs[i]);
                assert((x + y).subrange(8 * i, 8 * i + 8) =~= x.subrange(8 * i, 8 * i + 8));
            } else {
                assert((x + y).subrange(8 * i, 8 * i + 8) =~= y);
            }
        }
    }
}

/// The `i`-th `u64` of a run reads back at its position.
pub proof fn law_u64s_roundtrip(vs: Seq<u64>, before: Seq<u8>, rest: Seq<u8>, i: int)
    requires
        0 <= i < vs.len(),
    ensures
        take_u64(before + u64s_bytes(vs) + rest, before.len() + 8 * i) == Field::Got(
            vs[i],
            before.len() + 8 * i + 8,
        ),
{
    lemma_u64s_bytes(vs);
    lemma_u64_le_roundtrip(vs[i]);
    lemma_middle_subrange(before, u64s_bytes(vs), rest, 8 * i, 8 * i + 8);
}

/// Why a field could not be read.
#[derive(Debug, Clone, Copy, PartialEq, Eq, Structural)]
pub enum ReadFailure {
    /// The bytes ran out before the field ended.
    Truncated,
    /// The bytes are not a valid field.
    Malformed,
}

/// `StreamReader::read_bool` on the bytes: `!` is true, `?` false, any
/// other byte is invalid data, no byte is a closed stream.
#[verifier::external_body]
fn stream_read_bool(bytes: &[u8]) -> (r: Result<bool, ReadFailure>)
    ensures
        bytes@.len() == 0 ==> fails_with(r, ReadFailure::Truncated),
        bytes@.len() > 0 && bytes@[0] == true_byte() ==> yields(r, true),
        bytes@.len() > 0 && bytes@[0] == false_byte() ==> yields(r, false),
        bytes@.len() > 0 && bytes@[0] != true_byte() && bytes@[0] != false_byte() ==> fails_with(r, ReadFailure::Malformed),
{
    let mut src: &[u8] = bytes;
    match StreamReader::new(&mut src).read_bool() {
        Ok(v) => Ok(v),
        Err(StreamError::ClosedStream) => Err(ReadFailure::Truncated),
        Err(StreamError::InvalidData) => Err(ReadFailure::Malformed),
        Err(StreamError::InvalidStream) => Err(ReadFailure::Malformed),
    }
}

/// `StreamReader::read_u8` on the bytes: the first byte.
#[verifier::external_body]
fn stream_read_u8(bytes: &[u8]) -> (r: Result<u8, ReadFailure>)
    ensures
        bytes@.len() == 0 ==> fails_with(r, ReadFailure::Truncated),
        bytes@.len() > 0 ==> yields(r, bytes@[0]),
{
    let mut src: &[u8] = bytes;
    match StreamReader::new(&mut src).read_u8() {
        Ok(v) => Ok(v),
        Err(StreamError::ClosedStream) => Err(ReadFailure::Truncated),
        Err(StreamError::InvalidData) => Err(ReadFailure::Malformed),
        Err(StreamError::InvalidStream) => Err(ReadFailure::Malformed),
    }
}

/// `StreamReader::read_u32` on the bytes: the first four, little-endian.
#[verifier::external_body]
fn stream_read_u32(bytes: &[u8]) -> (r: Result<u32, ReadFailure>)
    ensures
        bytes@.len() < 4 ==> fails_with(r, ReadFailure::Truncated),
        bytes@.len() >= 4 ==> yields(r, u32_from_le(bytes@)),
{
    let mut src: &[u8] = bytes;
    match StreamReader::new(&mut src).read_u32() {
        Ok(v) => Ok(v),
        Err(StreamError::ClosedStream) => Err(ReadFailure::Truncated),
        Err(StreamError::InvalidData) => Err(ReadFailure::Malformed),
        Err(StreamError::InvalidStream) => Err(ReadFailure::Malformed),
    }
}

/// `StreamReader::read_u64` on the bytes: the first eight, little-endian.
#[verifier::external_body]
fn stream_read_u64(bytes: &[u8]) -> (r: Result<u64, ReadFailure>)
    ensures
        bytes@.len() < 8 ==> fails_with(r, ReadFailure::Truncated),
        bytes@.len() >= 8 ==> yields(r, u64_from_le(bytes@)),
{
    let mut src: &[u8] = bytes;
    match StreamReader::new(&mut src).read_u64() {
        Ok(v) => Ok(v),
        Err(StreamError::ClosedStream) => Err(ReadFailure::Truncated),
        Err(StreamError::InvalidData) => Err(ReadFailure::Malformed),
        Err(StreamError::InvalidStream) => Err(ReadFailure::Malformed),
    }
}

/// `StreamReader::read_buf` on bytes that hold the whole field: the bytes
/// after the length prefix.
#[verifier::external_body]
fn stream_read_buf(bytes: &[u8]) -> (r: Result<Vec<u8>, ReadFailure>)
    requires
        bytes@.len() >= 4,
        bytes@.len() >= 4 + u32_from_le(bytes@),
    ensures
        r is Ok,
        r matches Ok(v) ==> v@ == bytes@.subrange(4, 4 + u32_from_le(bytes@)),
{
    let mut src: &[u8] = bytes;
    match StreamReader::new(&mut src).read_buf() {
        Ok(v) => Ok(v.into_vec()),
        Err(StreamError::ClosedStream) => Err(ReadFailure::Truncated),
        Err(StreamError::InvalidData) => Err(ReadFailure::Malformed),
        Err(StreamError::InvalidStream) => Err(ReadFailure::Malformed),
    }
}

/// `StreamReader::read_string` on bytes that hold the whole field: the text
/// after the length prefix, or invalid data if it is not UTF-8.
#[verifier::external_body]
fn stream_read_string(bytes: &[u8]) -> (r: Result<String, ReadFailure>)
    requires
        bytes@.len() >= 4,
        bytes@.len() >= 4 + u32_from_le(bytes@),
    ensures
        r is Ok <==> valid_utf8(bytes@.subrange(4, 4 + u32_from_le(bytes@))),
        r matches Ok(s) ==> s@ == decode_utf8(bytes@.subrange(4, 4 + u32_from_le(bytes@))),
        r matches Err(f) ==> f == ReadFailure::Malformed,
{
    let mut src: &[u8] = bytes;
    match StreamReader::new(&mut src).read_string() {
        Ok(v) => Ok(v),
        Err(StreamError::ClosedStream) => Err(ReadFailure::Truncated),
        Err(StreamError::InvalidData) => Err(ReadFailure::Malformed),
        Err(StreamError::InvalidStream) => Err(ReadFailure::Malformed),
    }
}

/// A read position in a response's bytes.
pub struct Cursor<'a> {
    pub buf: &'a [u8],
    pub pos: usize,
}

/// `r` and the new position are what reading field `f` gives.
pub open spec fn read_as<T, U>(f: Field<U>, r: Result<T, ReadFailure>, v: spec_fn(T) -> U, start: usize, end: usize) -> bool {
    match f {
        Field::Short => fails_with(r, ReadFailure::Truncated) && end == start,
        Field::Bad(q) => fails_with(r, ReadFailure::Malformed) && end == q,
        Field::Got(x, q) => r is Ok && v(r->Ok_0) == x && end == q,
    }
}

impl<'a> Cursor<'a> {
    pub fn new(buf: &'a [u8]) -> (c: Self)
        ensures
            c.buf == buf,
            c.pos == 0,
    {
        Cursor { buf, pos: 0 }
    }

    fn rest(&self) -> (r: &'a [u8])
        requires
            self.pos <= self.buf@.len(),
        ensures
            r@ == self.buf@.skip(self.pos as int),
            self.buf@.len() <= usize::MAX,
    {
        slice_subrange(self.buf, self.pos, self.buf.len())
    }

    /// Reads a boolean.
    pub fn read_bool(&mut self) -> (r: Result<bool, ReadFailure>)
        requires
            old(self).pos <= old(self).buf@.len(),
        ensures
            final(self).buf == old(self).buf,
            old(self).pos <= final(self).pos <= final(self).buf@.len(),
            read_as(take_bool(old(self).buf@, old(self).pos as int), r, |x: bool| x, old(self).pos, final(self).pos),
    {
        let r = stream_read_bool(self.rest());
        match r {
            Err(ReadFailure::Truncated) => {},
            _ => {
                self.pos = self.pos + 1;
            },
        }
        r
    }

    /// Reads one byte.
    pub fn read_u8(&mut self) -> (r: Result<u8, ReadFailure>)
        requires
            old(self).pos <= old(self).buf@.len(),
        ensures
            final(self).buf == old(self).buf,
            old(self).pos <= final(self).pos <= final(self).buf@.len(),
            read_as(take_u8(old(self).buf@, old(self).pos as int), r, |x: u8| x, old(self).pos, final(self).pos),
    {
        let r = stream_read_u8(self.rest());
        if r.is_ok() {
            self.pos = self.pos + 1;
        }
        r
    }

    /// Reads a little-endian `u32`.
    pub fn read_u32(&mut self) -> (r: Result<u32, ReadFailure>)
        requires
            old(self).pos <= old(self).buf@.len(),
        ensures
            final(self).buf == old(self).buf,
            old(self).pos <= final(self).pos <= final(self).buf@.len(),
            read_as(take_u32(old(self).buf@, old(self).pos as int), r, |x: u32| x, old(self).pos, final(self).pos),
    {
        let rest = self.rest();
        let r = stream_read_u32(rest);
        if r.is_ok() {
            assert(rest@.subrange(0, 4) =~= self.buf@.subrange(self.pos as int, self.pos + 4));
            self.pos = self.pos + 4;
        }
        r
    }

    /// Reads a little-endian `u64`.
    pub fn read_u64(&mut self) -> (r: Result<u64, ReadFailure>)
        requires
            old(self).pos <= old(self).buf@.len(),
        ensures
            final(self).buf == old(self).buf,
            old(self).pos <= final(self).pos <= final(self).buf@.len(),
            read_as(take_u64(old(self).buf@, old(self).pos as int), r, |x: u64| x, old(self).pos, final(self).pos),
    {
        let rest = self.rest();
        let r = stream_read_u64(rest);
        if r.is_ok() {
            self.pos = self.pos + 8;
        }
        r
    }

    /// Reads a length-prefixed byte field.
    pub fn read_buf(&mut self) -> (r: Result<Vec<u8>, ReadFailure>)
        requires
            old(self).pos <= old(self).buf@.len(),
        ensures
            final(self).buf == old(self).buf,
            old(self).pos <= final(self).pos <= final(self).buf@.len(),
            read_as(take_buf(old(self).buf@, old(self).pos as int), r, |x: Vec<u8>| x@, old(self).pos, final(self).pos),
    {
        let rest = self.rest();
        let n = match stream_read_u32(rest) {
            Ok(n) => n,
            Err(f) => return Err(f),
        };
        if rest.len() - 4 < n as usize {
            return Err(ReadFailure::Truncated);
        }
        let r = stream_read_buf(rest);
        assert(rest@.subrange(4, 4 + n) =~= self.buf@.subrange(self.pos + 4, self.pos + 4 + n));
        self.pos = self.pos + 4 + n as usize;
        r
    }

    /// Reads a length-prefixed UTF-8 text field.
    pub fn read_string(&mut self) -> (r: Result<String, ReadFailure>)
        requires
            old(self).pos <= old(self).buf@.len(),
        ensures
            final(self).buf == old(self).buf,
            old(self).pos <= final(self).pos <= final(self).buf@.len(),
            read_as(take_string(old(self).buf@, old(self).pos as int), r, |x: String| x@, old(self).pos, final(self).pos),
    {
        let rest = self.rest();
        let n = match stream_read_u32(rest) {
            Ok(n) => n,
            Err(f) => return Err(f),
        };
        if rest.len() - 4 < n as usize {
            return Err(ReadFailure::Truncated);
        }
        let r = stream_read_string(rest);
        assert(rest@.subrange(4, 4 + n) =~= self.buf@.subrange(self.pos + 4, self.pos + 4 + n));
        self.pos = self.pos + 4 + n as usize;
        r
    }
}

/// Gives up a multi-field read that began at `start` because of failure
/// `f`: a truncated read takes back the bytes read so far; a malformed one
/// keeps the position after the bad field.
pub fn abandon<T>(c: &mut Cursor, start: usize, f: ReadFailure) -> (r: Result<T, ReadFailure>)
    requires
        start <= old(c).pos <= old(c).buf@.len(),
    ensures
        final(c).buf == old(c).buf,
        final(c).pos <= final(c).buf@.len(),
        fails_with(r, f),
        f == ReadFailure::Truncated ==> final(c).pos == start,
        f == ReadFailure::Malformed ==> final(c).pos == old(c).pos,
{
    if f == ReadFailure::Truncated {
        c.pos = start;
    }
    Err(f)
}

} // verus!
