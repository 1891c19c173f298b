//! The grammar of the server's responses, read from the bytes received so far.
use vstd::prelude::*;
use vstd::utf8::encode_utf8;

use crate::error::{cache_error_of, server_error_of, PaperClientError, PaperClientResult};
use crate::stats::{law_stats_roundtrip, lemma_stats_stable, stats_body, take_stats, StatsCounts, StatsView};
use crate::policy::PolicyView;
use crate::status::{law_status_roundtrip, lemma_status_stable, policy_sendable, status_body, status_sendable, take_status, StatusView};
use crate::sheet::code_of_set;
use crate::value::boxed_bytes;
use crate::wire::{bool_byte, false_byte, buf_field, law_buf_field_roundtrip, str_field, true_byte, u32_le, lemma_bool_stable, lemma_buf_stable, lemma_u32_stable, lemma_u8_stable, lemma_u32_le_roundtrip, stable, take_bool, take_buf, take_u32, take_u8, Cursor, Field, ReadFailure};

verus! {

/// What the bytes received so far make of a response: not enough bytes yet,
/// or the response's result and the number of bytes it took.
pub enum Reply<T> {
    Incomplete,
    Done(PaperClientResult<T>, usize),
}

impl<T: View> View for Reply<T> {
    type V = Reply<T::V>;

    open spec fn view(&self) -> Reply<T::V> {
        match self {
            Reply::Incomplete => Reply::Incomplete,
            Reply::Done(Ok(t), n) => Reply::Done(Ok(t@), *n),
            Reply::Done(Err(e), n) => Reply::Done(Err(*e), *n),
        }
    }
}

/// The bytes ran out: with more to come the response is incomplete; at the
/// end of the stream it is invalid, and takes all the bytes.
pub open spec fn cut_short<T>(b: Seq<u8>, at_end: bool) -> Reply<T> {
    if at_end {
        Reply::Done(Err(PaperClientError::InvalidResponse), b.len() as usize)
    } else {
        Reply::Incomplete
    }
}

/// A response whose last field is `f`.
pub open spec fn field_reply<T>(f: Field<T>, b: Seq<u8>, at_end: bool) -> Reply<T> {
    match f {
        Field::Short => cut_short(b, at_end),
        Field::Bad(q) => Reply::Done(Err(PaperClientError::InvalidResponse), q as usize),
        Field::Got(v, q) => Reply::Done(Ok(v), q as usize),
    }
}

/// The error that the bytes from `p` report, with the position after it:
/// a cache error is `0` and the cache's code, any other first byte is a
/// server error code. `None` while bytes are missing and more may come;
/// at the end of the stream missing bytes make the response invalid.
pub open spec fn error_body(b: Seq<u8>, p: int, at_end: bool) -> Option<(PaperClientError, int)> {
    match take_u8(b, p) {
        Field::Got(code, q) => if code == 0 {
            match take_u8(b, q) {
                Field::Got(c, r) => Some((PaperClientError::CacheError(cache_error_of(c)), r)),
                _ => short_error(b, at_end),
            }
        } else {
            Some((PaperClientError::ServerError(server_error_of(code)), q))
        },
        _ => short_error(b, at_end),
    }
}

/// The error when the bytes ran out inside an error report.
pub open spec fn short_error(b: Seq<u8>, at_end: bool) -> Option<(PaperClientError, int)> {
    if at_end {
        Some((PaperClientError::InvalidResponse, b.len() as int))
    } else {
        None
    }
}

/// A response that reports the error at `p`.
pub open spec fn error_reply<T>(b: Seq<u8>, p: int, at_end: bool) -> Reply<T> {
    match error_body(b, p, at_end) {
        Some((e, q)) => Reply::Done(Err(e), q as usize),
        None => Reply::Incomplete,
    }
}

/// A response: a boolean that tells success, then `ok_body` on success or
/// an error report on failure.
pub open spec fn reply<T>(b: Seq<u8>, at_end: bool, ok_body: Reply<T>) -> Reply<T> {
    match take_bool(b, 0) {
        Field::Short => cut_short(b, at_end),
        Field::Bad(q) => Reply::Done(Err(PaperClientError::InvalidResponse), q as usize),
        Field::Got(ok, q) => if ok {
            ok_body
        } else {
            error_reply(b, q, at_end)
        },
    }
}

/// The server's greeting on a new connection: success, or an error report.
/// A greeting that is missing or not a boolean means the server is
/// unreachable.
pub open spec fn spec_handshake(b: Seq<u8>, at_end: bool) -> Reply<()> {
    match take_bool(b, 0) {
        Field::Short => if at_end {
            Reply::Done(Err(PaperClientError::UnreachableServer), b.len() as usize)
        } else {
            Reply::Incomplete
        },
        Field::Bad(q) => Reply::Done(Err(PaperClientError::UnreachableServer), q as usize),
        Field::Got(ok, q) => if ok {
            Reply::Done(Ok(()), q as usize)
        } else {
            error_reply(b, q, at_end)
        },
    }
}

/// The response to a request that only succeeds or fails.
pub open spec fn spec_unit_reply(b: Seq<u8>, at_end: bool) -> Reply<()> {
    reply(b, at_end, Reply::Done(Ok(()), 1))
}

/// The response that carries a value: a length-prefixed byte field.
pub open spec fn spec_value_reply(b: Seq<u8>, at_end: bool) -> Reply<Seq<u8>> {
    reply(b, at_end, field_reply(take_buf(b, 1), b, at_end))
}

/// The response that tells whether a key is present: a boolean.
pub open spec fn spec_has_reply(b: Seq<u8>, at_end: bool) -> Reply<bool> {
    reply(b, at_end, field_reply(take_bool(b, 1), b, at_end))
}

/// The response that tells a value's size: a little-endian `u32`.
pub open spec fn spec_size_reply(b: Seq<u8>, at_end: bool) -> Reply<u32> {
    reply(b, at_end, field_reply(take_u32(b, 1), b, at_end))
}

/// The response that carries the cache's status.
pub open spec fn spec_status_reply(b: Seq<u8>, at_end: bool) -> Reply<StatusView> {
    reply(b, at_end, field_reply(take_status(b, 1), b, at_end))
}

/// The response that carries the cache's statistics.
pub open spec fn spec_stats_reply(b: Seq<u8>, at_end: bool) -> Reply<StatsView> {
    reply(b, at_end, field_reply(take_stats(b, 1), b, at_end))
}

/// The number of bytes a complete response took.
pub open spec fn taken<T>(r: Reply<T>) -> int {
    match r {
        Reply::Done(_, n) => n as int,
        Reply::Incomplete => 0,
    }
}

/// `later` is what `r`, read from `len` bytes with more to come, stays
/// once more bytes arrive: a complete response keeps its result and its
/// length, which is within the bytes it was read from.
pub open spec fn settled<T>(r: Reply<T>, later: Reply<T>, len: int) -> bool {
    r is Done ==> later == r && taken(r) <= len
}

proof fn lemma_field_reply_settles<T>(f: Field<T>, g: Field<T>, b: Seq<u8>, e: Seq<u8>, at_end: bool)
    requires
        stable(f, g, 1, b.len() as int),
        b.len() <= usize::MAX,
    ensures
        settled(field_reply(f, b, false), field_reply(g, b + e, at_end), b.len() as int),
{
}

proof fn lemma_error_reply_settles<T>(b: Seq<u8>, e: Seq<u8>, at_end: bool)
    requires
        b.len() <= usize::MAX,
    ensures
        settled(error_reply::<T>(b, 1, false), error_reply::<T>(b + e, 1, at_end), b.len() as int),
{
    lemma_u8_stable(b, e, 1);
    lemma_u8_stable(b, e, 2);
}

proof fn lemma_reply_settles<T>(b: Seq<u8>, e: Seq<u8>, at_end: bool, body: Reply<T>, later_body: Reply<T>)
    requires
        b.len() <= usize::MAX,
        take_bool(b, 0) == Field::Got(true, 1int) ==> settled(body, later_body, b.len() as int),
    ensures
        settled(reply(b, false, body), reply(b + e, at_end, later_body), b.len() as int),
{
    lemma_bool_stable(b, e, 0);
    lemma_error_reply_settles::<T>(b, e, at_end);
}

/// A success-or-failure response is read the same however its bytes
/// arrive: once complete, more bytes or the end of the stream change
/// neither its result nor its length, which is within the bytes received.
pub proof fn law_unit_reply_settles(b: Seq<u8>, more: Seq<u8>, at_end: bool)
    requires
        b.len() <= usize::MAX,
    ensures
        settled(spec_unit_reply(b, false), spec_unit_reply(b + more, at_end), b.len() as int),
{
    lemma_reply_settles::<()>(b, more, at_end, Reply::Done(Ok(()), 1), Reply::Done(Ok(()), 1));
}

/// A value response is read the same however its bytes arrive.
pub proof fn law_value_reply_settles(b: Seq<u8>, more: Seq<u8>, at_end: bool)
    requires
        b.len() <= usize::MAX,
    ensures
        settled(spec_value_reply(b, false), spec_value_reply(b + more, at_end), b.len() as int),
{
    lemma_buf_stable(b, more, 1);
    lemma_field_reply_settles(take_buf(b, 1), take_buf(b + more, 1), b, more, at_end);
    lemma_reply_settles(
        b,
        more,
        at_end,
        field_reply(take_buf(b, 1), b, false),
        field_reply(take_buf(b + more, 1), b + more, at_end),
    );
}

/// A presence response is read the same however its bytes arrive.
pub proof fn law_has_reply_settles(b: Seq<u8>, more: Seq<u8>, at_end: bool)
    requires
        b.len() <= usize::MAX,
    ensures
        settled(spec_has_reply(b, false), spec_has_reply(b + more, at_end), b.len() as int),
{
    lemma_bool_stable(b, more, 1);
    lemma_field_reply_settles(take_bool(b, 1), take_bool(b + more, 1), b, more, at_end);
    lemma_reply_settles(
        b,
        more,
        at_end,
        field_reply(take_bool(b, 1), b, false),
        field_reply(take_bool(b + more, 1), b + more, at_end),
    );
}

/// A size response is read the same however its bytes arrive.
pub proof fn law_size_reply_settles(b: Seq<u8>, more: Seq<u8>, at_end: bool)
    requires
        b.len() <= usize::MAX,
    ensures
        settled(spec_size_reply(b, false), spec_size_reply(b + more, at_end), b.len() as int),
{
    lemma_u32_stable(b, more, 1);
    lemma_field_reply_settles(take_u32(b, 1), take_u32(b + more, 1), b, more, at_end);
    lemma_reply_settles(
        b,
        more,
        at_end,
        field_reply(take_u32(b, 1), b, false),
        field_reply(take_u32(b + more, 1), b + more, at_end),
    );
}

/// A status response is read the same however its bytes arrive.
pub proof fn law_status_reply_settles(b: Seq<u8>, more: Seq<u8>, at_end: bool)
    requires
        b.len() <= usize::MAX,
    ensures
        settled(spec_status_reply(b, false), spec_status_reply(b + more, at_end), b.len() as int),
{
    lemma_status_stable(b, more, 1);
    lemma_field_reply_settles(take_status(b, 1), take_status(b + more, 1), b, more, at_end);
    lemma_reply_settles(
        b,
        more,
        at_end,
        field_reply(take_status(b, 1), b, false),
        field_reply(take_status(b + more, 1), b + more, at_end),
    );
}

/// A statistics response is read the same however its bytes arrive.
pub proof fn law_stats_reply_settles(b: Seq<u8>, more: Seq<u8>, at_end: bool)
    requires
        b.len() <= usize::MAX,
    ensures
        settled(spec_stats_reply(b, false), spec_stats_reply(b + more, at_end), b.len() as int),
{
    lemma_stats_stable(b, more, 1);
    lemma_field_reply_settles(take_stats(b, 1), take_stats(b + more, 1), b, more, at_end);
    lemma_reply_settles(
        b,
        more,
        at_end,
        field_reply(take_stats(b, 1), b, false),
        field_reply(take_stats(b + more, 1), b + more, at_end),
    );
}

/// The greeting is read the same however its bytes arrive.
pub proof fn law_handshake_settles(b: Seq<u8>, more: Seq<u8>, at_end: bool)
    requires
        b.len() <= usize::MAX,
    ensures
        settled(spec_handshake(b, false), spec_handshake(b + more, at_end), b.len() as int),
{
    lemma_bool_stable(b, more, 0);
    lemma_error_reply_settles::<()>(b, more, at_end);
}

/// A value response that carries a value field reads back as its bytes.
pub proof fn law_value_reply_roundtrip(value: Seq<u8>, at_end: bool)
    requires
        value.len() <= u32::MAX,
    ensures
        spec_value_reply(seq![true_byte()] + buf_field(value), at_end) == Reply::<Seq<u8>>::Done(
            Ok(value),
            (5 + value.len()) as usize,
        ),
{
    let b = seq![true_byte()] + buf_field(value);
    assert(b =~= seq![true_byte()] + buf_field(value) + Seq::<u8>::empty());
    law_buf_field_roundtrip(value, 1, Seq::empty(), seq![true_byte()]);
    assert(take_bool(b, 0) == Field::Got(true, 1int));
}

/// A response that only tells success reads back as success, after its one
/// byte, whatever follows it.
pub proof fn law_unit_reply_roundtrip(suffix: Seq<u8>, at_end: bool)
    ensures
        spec_unit_reply(seq![true_byte()] + suffix, at_end) == Reply::<()>::Done(Ok(()), 1),
{
    let b = seq![true_byte()] + suffix;
    assert(b[0] == true_byte());
}

/// A greeting of success reads back as success, after its one byte,
/// whatever follows it.
pub proof fn law_handshake_roundtrip(suffix: Seq<u8>, at_end: bool)
    ensures
        spec_handshake(seq![true_byte()] + suffix, at_end) == Reply::<()>::Done(Ok(()), 1),
{
    let b = seq![true_byte()] + suffix;
    assert(b[0] == true_byte());
}

/// A presence response reads back as the boolean it carries, after its two
/// bytes, whatever follows them.
pub proof fn law_has_reply_roundtrip(present: bool, suffix: Seq<u8>, at_end: bool)
    ensures
        spec_has_reply(seq![true_byte(), bool_byte(present)] + suffix, at_end) == Reply::<bool>::Done(
            Ok(present),
            2,
        ),
{
    let b = seq![true_byte(), bool_byte(present)] + suffix;
    assert(b[0] == true_byte());
    assert(b[1] == bool_byte(present));
}

/// A size response reads back as the `u32` it carries, after its five
/// bytes, whatever follows them.
pub proof fn law_size_reply_roundtrip(size: u32, suffix: Seq<u8>, at_end: bool)
    ensures
        spec_size_reply(seq![true_byte()] + u32_le(size) + suffix, at_end) == Reply::<u32>::Done(
            Ok(size),
            5,
        ),
{
    let b = seq![true_byte()] + u32_le(size) + suffix;
    lemma_u32_le_roundtrip(size);
    assert(b[0] == true_byte());
    assert(b.subrange(1, 5) =~= u32_le(size));
}

/// A successful status response whose body reads as `s` is `s`.
proof fn lemma_status_reply_of(b: Seq<u8>, s: StatusView, end: int, at_end: bool)
    requires
        b.len() >= 1,
        b[0] == true_byte(),
        take_status(b, 1) == Field::Got(s, end),
    ensures
        spec_status_reply(b, at_end) == Reply::<StatusView>::Done(Ok(s), end as usize),
{
}

/// A status response reads back as the report it carries, every field of
/// it, after the success byte and the body, whatever follows.
pub proof fn law_status_reply_roundtrip(s: StatusView, suffix: Seq<u8>, at_end: bool)
    requires
        status_sendable(s),
        1 + status_body(s).len() <= usize::MAX,
    ensures
        spec_status_reply(seq![true_byte()] + status_body(s) + suffix, at_end) == Reply::<StatusView>::Done(
            Ok(s),
            (1 + status_body(s).len()) as usize,
        ),
{
    let b = seq![true_byte()] + status_body(s) + suffix;
    law_status_roundtrip(s, seq![true_byte()], suffix);
    assert(b[0] == true_byte());
    lemma_status_reply_of(b, s, 1 + status_body(s).len() as int, at_end);
}

/// A statistics response reads back as the report it carries, every field
/// of it, after the success byte and the body, whatever follows.
pub proof fn law_stats_reply_roundtrip(
    n: StatsCounts,
    policy: PolicyView,
    is_auto_policy: bool,
    uptime: u64,
    suffix: Seq<u8>,
    at_end: bool,
)
    requires
        policy_sendable(policy),
        1 + stats_body(n, policy, is_auto_policy, uptime).len() <= usize::MAX,
    ensures
        spec_stats_reply(seq![true_byte()] + stats_body(n, policy, is_auto_policy, uptime) + suffix, at_end)
            == Reply::<StatsView>::Done(
            Ok(
                StatsView {
                    max_size: n.max_size,
                    used_size: n.used_size,
                    num_objects: n.num_objects,
                    total_gets: n.total_gets,
                    total_sets: n.total_sets,
                    total_dels: n.total_dels,
                    miss_ratio_bits: n.miss_ratio_bits,
                    policies: Seq::empty(),
                    policy,
                    is_auto_policy,
                    uptime,
                },
            ),
            (1 + stats_body(n, policy, is_auto_policy, uptime).len()) as usize,
        ),
{
    let b = seq![true_byte()] + stats_body(n, policy, is_auto_policy, uptime) + suffix;
    law_stats_roundtrip(n, policy, is_auto_policy, uptime, seq![true_byte()], suffix);
    assert(b[0] == true_byte());
}

/// The value that a `Store` request writes is the field a value response
/// reads back: the request carries the value as the same length-prefixed
/// field, right after the request code and the key.
pub proof fn law_stored_value_reads_back(key: Seq<char>, value: Seq<u8>, ttl: u32)
    requires
        value.len() <= u32::MAX,
    ensures
        ({
            let head = seq![code_of_set()] + str_field(key);
            take_buf(head + buf_field(value) + u32_le(ttl), head.len() as int) == Field::Got(
                value,
                (head.len() + 4 + value.len()) as int,
            )
        }),
{
    let head = seq![code_of_set()] + str_field(key);
    law_buf_field_roundtrip(value, head.len() as int, u32_le(ttl), head);
}

/// The bytes of a refusal: `?`, then `0` and the cache's code for a cache
/// error, or the server's code.
pub open spec fn refusal_bytes(code: u8, cache_code: u8) -> Seq<u8> {
    if code == 0 {
        seq![false_byte(), 0u8, cache_code]
    } else {
        seq![false_byte(), code]
    }
}

/// The error that a refusal reports.
pub open spec fn refusal_error(code: u8, cache_code: u8) -> PaperClientError {
    if code == 0 {
        PaperClientError::CacheError(cache_error_of(cache_code))
    } else {
        PaperClientError::ServerError(server_error_of(code))
    }
}

/// A refused request is answered with the error the server reports, by
/// every kind of response and by the greeting alike: a cache error for `0`
/// and the cache's code, a server error for any other code.
pub proof fn law_refusals_are_reported(code: u8, cache_code: u8, at_end: bool)
    ensures
        ({
            let b = refusal_bytes(code, cache_code);
            let e = refusal_error(code, cache_code);
            let n = b.len() as usize;
            &&& spec_unit_reply(b, at_end) == Reply::<()>::Done(Err(e), n)
            &&& spec_value_reply(b, at_end) == Reply::<Seq<u8>>::Done(Err(e), n)
            &&& spec_has_reply(b, at_end) == Reply::<bool>::Done(Err(e), n)
            &&& spec_size_reply(b, at_end) == Reply::<u32>::Done(Err(e), n)
            &&& spec_status_reply(b, at_end) == Reply::<StatusView>::Done(Err(e), n)
            &&& spec_stats_reply(b, at_end) == Reply::<StatsView>::Done(Err(e), n)
            &&& spec_handshake(b, at_end) == Reply::<()>::Done(Err(e), n)
        }),
{
}

/// At the end of the stream no response is left incomplete: whatever the
/// bytes, every kind of response is complete, a truncated one as an error.
pub proof fn law_end_of_stream_completes(b: Seq<u8>)
    ensures
        spec_unit_reply(b, true) is Done,
        spec_value_reply(b, true) is Done,
        spec_has_reply(b, true) is Done,
        spec_size_reply(b, true) is Done,
        spec_status_reply(b, true) is Done,
        spec_stats_reply(b, true) is Done,
        spec_handshake(b, true) is Done,
{
}

/// Bytes that end before a response does make it incomplete while more may
/// come, and an `InvalidResponse` that takes all the bytes once the stream
/// has ended; a missing greeting is an `UnreachableServer`.
pub proof fn law_truncated_response_is_invalid(b: Seq<u8>)
    requires
        b.len() <= usize::MAX,
    ensures
        spec_value_reply(b, false) is Incomplete ==> spec_value_reply(b, true) == Reply::<Seq<u8>>::Done(
            Err(PaperClientError::InvalidResponse),
            b.len() as usize,
        ),
        spec_unit_reply(b, false) is Incomplete ==> spec_unit_reply(b, true) == Reply::<()>::Done(
            Err(PaperClientError::InvalidResponse),
            b.len() as usize,
        ),
        spec_has_reply(b, false) is Incomplete ==> spec_has_reply(b, true) == Reply::<bool>::Done(
            Err(PaperClientError::InvalidResponse),
            b.len() as usize,
        ),
        spec_size_reply(b, false) is Incomplete ==> spec_size_reply(b, true) == Reply::<u32>::Done(
            Err(PaperClientError::InvalidResponse),
            b.len() as usize,
        ),
        spec_status_reply(b, false) is Incomplete ==> spec_status_reply(b, true) == Reply::<
            StatusView,
        >::Done(Err(PaperClientError::InvalidResponse), b.len() as usize),
        spec_stats_reply(b, false) is Incomplete ==> spec_stats_reply(b, true) == Reply::<
            StatsView,
        >::Done(Err(PaperClientError::InvalidResponse), b.len() as usize),
        spec_handshake(b, false) is Incomplete ==> spec_handshake(b, true) == Reply::<()>::Done(
            Err(
                if b.len() == 0 {
                    PaperClientError::UnreachableServer
                } else {
                    PaperClientError::InvalidResponse
                },
            ),
            b.len() as usize,
        ),
{
}

/// The response that a failed field read makes.
pub fn failed<T: View>(f: ReadFailure, c: &mut Cursor, at_end: bool) -> (r: Reply<T>)
    requires
        old(c).pos <= old(c).buf@.len(),
    ensures
        final(c).buf == old(c).buf,
        final(c).pos <= final(c).buf@.len(),
        f == ReadFailure::Truncated ==> r@ == cut_short::<T::V>(old(c).buf@, at_end),
        f == ReadFailure::Malformed ==> r@ == Reply::<T::V>::Done(
            Err(PaperClientError::InvalidResponse),
            old(c).pos,
        ),
{
    match f {
        ReadFailure::Truncated => if at_end {
            c.pos = c.buf.len();
            Reply::Done(Err(PaperClientError::InvalidResponse), c.pos)
        } else {
            Reply::Incomplete
        },
        ReadFailure::Malformed => Reply::Done(Err(PaperClientError::InvalidResponse), c.pos),
    }
}

/// The response that reports the error at the cursor.
pub fn failure_reply<T: View>(c: &mut Cursor, at_end: bool) -> (r: Reply<T>)
    requires
        old(c).pos <= old(c).buf@.len(),
    ensures
        final(c).buf == old(c).buf,
        r@ == error_reply::<T::V>(old(c).buf@, old(c).pos as int, at_end),
{
    match PaperClientError::from_reader(c, at_end) {
        Some(e) => Reply::Done(Err(e), c.pos),
        None => Reply::Incomplete,
    }
}

/// Reads the server's greeting on a new connection.
pub fn parse_handshake(buf: &[u8], at_end: bool) -> (r: Reply<()>)
    ensures
        r@ == spec_handshake(buf@, at_end),
{
    let mut c = Cursor::new(buf);
    match c.read_bool() {
        Ok(true) => Reply::Done(Ok(()), c.pos),
        Ok(false) => failure_reply(&mut c, at_end),
        Err(ReadFailure::Truncated) => if at_end {
            Reply::Done(Err(PaperClientError::UnreachableServer), buf.len())
        } else {
            Reply::Incomplete
        },
        Err(ReadFailure::Malformed) => Reply::Done(Err(PaperClientError::UnreachableServer), c.pos),
    }
}

/// The outcome of a request as data, or the text of the error.
pub struct PaperClientResponse<T> {
    data: Result<T, String>,
}

impl<T> PaperClientResponse<T> {
    /// A response holding `data`.
    pub fn new(data: Result<T, String>) -> (r: Self)
        ensures
            r.outcome() == data,
    {
        PaperClientResponse { data }
    }

    /// What the response holds.
    pub closed spec fn outcome(&self) -> Result<T, String> {
        self.data
    }

    /// Whether the response holds data rather than an error.
    pub fn is_ok(&self) -> (b: bool)
        ensures
            b == self.outcome() is Ok,
    {
        self.data.is_ok()
    }

    /// The response's data, or the text of its error.
    pub fn data(&self) -> (r: Result<&T, &str>)
        ensures
            self.outcome() is Ok ==> r is Ok && *r->Ok_0 == self.outcome()->Ok_0,
            self.outcome() is Err ==> r is Err && r->Err_0@ == self.outcome()->Err_0@,
    {
        match &self.data {
            Ok(v) => Ok(v),
            Err(e) => Err(e.as_str()),
        }
    }
}


/// The decimal digits of `n`, as ASCII bytes, with no leading zeros.
pub open spec fn decimal_digits(n: nat) -> Seq<u8>
    decreases n,
{
    if n < 10 {
        seq![(48 + n) as u8]
    } else {
        decimal_digits(n / 10).push((48 + n % 10) as u8)
    }
}

/// The decimal text of `i`, as ASCII bytes: a `-` before the digits of a
/// negative number.
pub open spec fn signed_decimal(i: int) -> Seq<u8> {
    if i < 0 {
        seq![45u8] + decimal_digits((-i) as nat)
    } else {
        decimal_digits(i as nat)
    }
}

/// The text of a boolean: `true` or `false`, as ASCII bytes.
pub open spec fn bool_text(b: bool) -> Seq<u8> {
    if b {
        seq![116u8, 114u8, 117u8, 101u8]
    } else {
        seq![102u8, 97u8, 108u8, 115u8, 101u8]
    }
}

/// The number that ASCII decimal digits stand for.
pub open spec fn decimal_value(s: Seq<u8>) -> int
    decreases s.len(),
{
    if s.len() == 0 {
        0
    } else {
        decimal_value(s.drop_last()) * 10 + (s.last() - 48)
    }
}

/// Every byte is an ASCII decimal digit.
pub open spec fn ascii_digits(s: Seq<u8>) -> bool {
    forall|i: int| 0 <= i < s.len() ==> 48 <= #[trigger] s[i] <= 57
}

/// The decimal text of a number is one or more ASCII digits, without a
/// leading zero unless the number is zero, and they stand for the number.
pub proof fn law_decimal_digits(n: nat)
    ensures
        ascii_digits(decimal_digits(n)),
        decimal_digits(n).len() >= 1,
        n >= 10 ==> decimal_digits(n).len() > 1,
        decimal_digits(n).len() > 1 ==> decimal_digits(n)[0] != 48,
        decimal_value(decimal_digits(n)) == n,
    decreases n,
{
    if n < 10 {
        let d = decimal_digits(n);
        assert(d.drop_last() =~= Seq::<u8>::empty());
        assert(d.last() == 48 + n);
        assert(decimal_value(d) == decimal_value(d.drop_last()) * 10 + (d.last() - 48));
    } else {
        let q = n / 10;
        let r = n % 10;
        law_decimal_digits(q);
        let d = decimal_digits(n);
        assert(d.drop_last() =~= decimal_digits(q));
        assert(d.last() == 48 + r);
        assert(decimal_value(d) == decimal_value(d.drop_last()) * 10 + (d.last() - 48));
        assert(decimal_value(d) == q * 10 + r);
        assert(q * 10 + r == n) by (nonlinear_arith)
            requires
                q == n / 10,
                r == n % 10,
        ;
        assert(q >= 1);
        assert(d[0] == decimal_digits(q)[0]);
        if q < 10 {
            assert(decimal_digits(q)[0] == (48 + q) as u8);
        }
        assert forall|i: int| 0 <= i < d.len() implies 48 <= #[trigger] d[i] <= 57 by {
            if i < d.len() - 1 {
                assert(d[i] == decimal_digits(q)[i]);
            }
        }
    }
}

/// The decimal text of a signed number starts with `-` exactly when the
/// number is negative, and the digits after it stand for its magnitude.
pub proof fn law_signed_decimal(i: int)
    ensures
        (signed_decimal(i)[0] == 45) <==> i < 0,
        i < 0 ==> ascii_digits(signed_decimal(i).skip(1)) && decimal_value(signed_decimal(i).skip(1)) == -i,
        i >= 0 ==> ascii_digits(signed_decimal(i)) && decimal_value(signed_decimal(i)) == i,
{
    if i < 0 {
        law_decimal_digits((-i) as nat);
        assert(signed_decimal(i).skip(1) =~= decimal_digits((-i) as nat));
    } else {
        law_decimal_digits(i as nat);
        assert(48 <= signed_decimal(i)[0]);
    }
}

/// Appends the decimal digits of `n`.
fn push_decimal(n: u64, out: &mut Vec<u8>)
    ensures
        final(out)@ == old(out)@ + decimal_digits(n as nat),
    decreases n,
{
    if n >= 10 {
        push_decimal(n / 10, out);
    }
    let ghost before = out@;
    out.push((48 + n % 10) as u8);
    proof {
        if n >= 10 {
            assert(out@ =~= old(out)@ + decimal_digits(n as nat));
        } else {
            assert(out@ =~= old(out)@ + decimal_digits(n as nat));
        }
    }
}

/// The decimal text of an unsigned number.
fn unsigned_text(n: u64) -> (b: Vec<u8>)
    ensures
        b@ == decimal_digits(n as nat),
{
    let mut b: Vec<u8> = Vec::new();
    push_decimal(n, &mut b);
    assert(b@ =~= decimal_digits(n as nat));
    b
}

/// The decimal text of a signed number.
fn signed_text(n: i64) -> (b: Vec<u8>)
    ensures
        b@ == signed_decimal(n as int),
{
    let mut b: Vec<u8> = Vec::new();
    if n < 0 {
        b.push(45u8);
        let magnitude: u64 = (-(n + 1)) as u64 + 1;
        push_decimal(magnitude, &mut b);
    } else {
        push_decimal(n as u64, &mut b);
        assert(b@ =~= signed_decimal(n as int));
    }
    b
}

/// Response data that has a plain text form.
pub trait BasicResponseData: Sized {
    /// The text of the data, as ASCII bytes.
    spec fn text_spec(&self) -> Seq<u8>;

    /// The text of the data.
    fn text(&self) -> (b: Vec<u8>)
        ensures
            b@ == self.text_spec(),
    ;
}

impl BasicResponseData for u64 {
    open spec fn text_spec(&self) -> Seq<u8> {
        decimal_digits(*self as nat)
    }

    fn text(&self) -> (b: Vec<u8>) {
        unsigned_text(*self)
    }
}

impl BasicResponseData for u32 {
    open spec fn text_spec(&self) -> Seq<u8> {
        decimal_digits(*self as nat)
    }

    fn text(&self) -> (b: Vec<u8>) {
        unsigned_text(*self as u64)
    }
}

impl BasicResponseData for u16 {
    open spec fn text_spec(&self) -> Seq<u8> {
        decimal_digits(*self as nat)
    }

    fn text(&self) -> (b: Vec<u8>) {
        unsigned_text(*self as u64)
    }
}

impl BasicResponseData for u8 {
    open spec fn text_spec(&self) -> Seq<u8> {
        decimal_digits(*self as nat)
    }

    fn text(&self) -> (b: Vec<u8>) {
        unsigned_text(*self as u64)
    }
}

impl BasicResponseData for usize {
    open spec fn text_spec(&self) -> Seq<u8> {
        decimal_digits(*self as nat)
    }

    fn text(&self) -> (b: Vec<u8>) {
        unsigned_text(*self as u64)
    }
}

impl BasicResponseData for i64 {
    open spec fn text_spec(&self) -> Seq<u8> {
        signed_decimal(*self as int)
    }

    fn text(&self) -> (b: Vec<u8>) {
        signed_text(*self)
    }
}

impl BasicResponseData for i32 {
    open spec fn text_spec(&self) -> Seq<u8> {
        signed_decimal(*self as int)
    }

    fn text(&self) -> (b: Vec<u8>) {
        signed_text(*self as i64)
    }
}

impl BasicResponseData for i16 {
    open spec fn text_spec(&self) -> Seq<u8> {
        signed_decimal(*self as int)
    }

    fn text(&self) -> (b: Vec<u8>) {
        signed_text(*self as i64)
    }
}

impl BasicResponseData for i8 {
    open spec fn text_spec(&self) -> Seq<u8> {
        signed_decimal(*self as int)
    }

    fn text(&self) -> (b: Vec<u8>) {
        signed_text(*self as i64)
    }
}

impl BasicResponseData for isize {
    open spec fn text_spec(&self) -> Seq<u8> {
        signed_decimal(*self as int)
    }

    fn text(&self) -> (b: Vec<u8>) {
        signed_text(*self as i64)
    }
}

impl BasicResponseData for bool {
    open spec fn text_spec(&self) -> Seq<u8> {
        bool_text(*self)
    }

    fn text(&self) -> (b: Vec<u8>) {
        if *self {
            vec![116u8, 114u8, 117u8, 101u8]
        } else {
            vec![102u8, 97u8, 108u8, 115u8, 101u8]
        }
    }
}

impl<T: BasicResponseData> From<PaperClientResponse<T>> for PaperClientResponse<Box<[u8]>> {
    /// The data's text as bytes; an error's text is kept.
    fn from(value: PaperClientResponse<T>) -> (r: Self)
        ensures
            match value.outcome() {
                Ok(v) => r.outcome() matches Ok(b) && b@ == v.text_spec(),
                Err(e) => r.outcome() == Err::<Box<[u8]>, String>(e),
            },
    {
        let data = match value.data {
            Ok(v) => Ok(boxed_bytes(v.text())),
            Err(e) => Err(e),
        };
        PaperClientResponse { data }
    }
}

impl<T: BasicResponseData> vstd::std_specs::convert::FromSpecImpl<PaperClientResponse<T>> for PaperClientResponse<Box<[u8]>> {
    open spec fn obeys_from_spec() -> bool {
        false
    }

    open spec fn from_spec(value: PaperClientResponse<T>) -> Self {
        vstd::pervasive::arbitrary()
    }
}

} // verus!
