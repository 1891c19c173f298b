//! The requests a client sends, and their encoding on the wire.
use vstd::prelude::*;

use paper_utils::sheet::Sheet;

use crate::policy::{policy_text, PaperPolicy, PolicyView};
use crate::response::{
    failed, failure_reply, spec_has_reply, spec_size_reply, spec_stats_reply, spec_status_reply,
    spec_unit_reply, spec_value_reply, Reply,
};
use crate::stats::{read_stats, Stats};
use crate::status::{read_status, Status};
use crate::wire::Cursor;
use crate::sheet::{
    auth_code, builder_bytes, builder_into_sheet, builder_new, builder_write_buf,
    builder_write_str, builder_write_u32, builder_write_u64, builder_write_u8, code_of_auth,
    code_of_del, code_of_get, code_of_has, code_of_peek, code_of_ping, code_of_policy,
    code_of_resize, code_of_set, code_of_size, code_of_status, code_of_ttl, code_of_version,
    code_of_wipe, del_code, get_code, has_code, peek_code, ping_code, policy_code, resize_code,
    set_code, sheet_bytes, size_code, status_code, ttl_code, version_code, wipe_code,
};
use crate::value::PaperValue;
use crate::wire::{bind, buf_field, law_buf_field_roundtrip, law_str_field_roundtrip, lemma_u32_le_roundtrip, str_field, take_buf, take_string, take_u32, take_u64, take_u8, u32_le, u64_le, Field};
use crate::response::law_stored_value_reads_back;
use crate::wire::{lemma_regroup, lemma_u64_le_roundtrip};
use crate::status::{law_policy_field_roundtrip, law_u64_field_roundtrip, policy_sendable, take_policy};
use vstd::utf8::encode_utf8;

verus! {

/// A request to the cache.
pub enum Command<'a> {
    Ping,
    Version,
    Auth(&'a str),
    Get(&'a str),
    /// Stores a value under a key (the protocol's `SET`), with a time to
    /// live in seconds, 0 for none.
    Store(&'a str, PaperValue, u32),
    Del(&'a str),
    Has(&'a str),
    Peek(&'a str),
    Ttl(&'a str, u32),
    Size(&'a str),
    Wipe,
    Resize(u64),
    Policy(PaperPolicy),
    Status,
}

impl<'a> Command<'a> {
    /// The bytes of the request on the wire: the request code, then the
    /// arguments; texts and values as length-prefixed fields, numbers as
    /// little-endian integers.
    pub open spec fn encoding(&self) -> Seq<u8> {
        match self {
            Command::Ping => seq![code_of_ping()],
            Command::Version => seq![code_of_version()],
            Command::Auth(token) => seq![code_of_auth()] + str_field(token@),
            Command::Get(key) => seq![code_of_get()] + str_field(key@),
            Command::Store(key, value, ttl) => seq![code_of_set()] + str_field(key@) + buf_field(
                value@,
            ) + u32_le(*ttl),
            Command::Del(key) => seq![code_of_del()] + str_field(key@),
            Command::Has(key) => seq![code_of_has()] + str_field(key@),
            Command::Peek(key) => seq![code_of_peek()] + str_field(key@),
            Command::Ttl(key, ttl) => seq![code_of_ttl()] + str_field(key@) + u32_le(*ttl),
            Command::Size(key) => seq![code_of_size()] + str_field(key@),
            Command::Wipe => seq![code_of_wipe()],
            Command::Resize(size) => seq![code_of_resize()] + u64_le(*size),
            Command::Policy(policy) => seq![code_of_policy()] + str_field(policy_text(policy@)),
            Command::Status => seq![code_of_status()],
        }
    }

    /// The request as a sheet, ready to be written to the stream.
    pub fn to_sheet(&self) -> (s: Sheet)
        ensures
            sheet_bytes(s) == self.encoding(),
    {
        let b = builder_new();
        let b = match self {
            Command::Ping => builder_write_u8(b, ping_code()),
            Command::Version => builder_write_u8(b, version_code()),
            Command::Auth(token) => builder_write_str(builder_write_u8(b, auth_code()), token),
            Command::Get(key) => builder_write_str(builder_write_u8(b, get_code()), key),
            Command::Store(key, value, ttl) => {
                let b = builder_write_str(builder_write_u8(b, set_code()), key);
                let b = builder_write_buf(b, value.as_bytes());
                builder_write_u32(b, *ttl)
            },
            Command::Del(key) => builder_write_str(builder_write_u8(b, del_code()), key),
            Command::Has(key) => builder_write_str(builder_write_u8(b, has_code()), key),
            Command::Peek(key) => builder_write_str(builder_write_u8(b, peek_code()), key),
            Command::Ttl(key, ttl) => {
                let b = builder_write_str(builder_write_u8(b, ttl_code()), key);
                builder_write_u32(b, *ttl)
            },
            Command::Size(key) => builder_write_str(builder_write_u8(b, size_code()), key),
            Command::Wipe => builder_write_u8(b, wipe_code()),
            Command::Resize(size) => builder_write_u64(builder_write_u8(b, resize_code()), *size),
            Command::Policy(policy) => {
                let text = policy.to_string();
                builder_write_str(builder_write_u8(b, policy_code()), text.as_str())
            },
            Command::Status => builder_write_u8(b, status_code()),
        };
        assert(builder_bytes(b) =~= self.encoding());
        builder_into_sheet(b)
    }
}

/// What a request asks, as plain values.
pub enum RequestView {
    Ping,
    Version,
    Auth(Seq<char>),
    Get(Seq<char>),
    Store(Seq<char>, Seq<u8>, u32),
    Del(Seq<char>),
    Has(Seq<char>),
    Peek(Seq<char>),
    Ttl(Seq<char>, u32),
    Size(Seq<char>),
    Wipe,
    Resize(u64),
    Policy(PolicyView),
    Status,
}

impl<'a> View for Command<'a> {
    type V = RequestView;

    open spec fn view(&self) -> RequestView {
        match self {
            Command::Ping => RequestView::Ping,
            Command::Version => RequestView::Version,
            Command::Auth(token) => RequestView::Auth(token@),
            Command::Get(key) => RequestView::Get(key@),
            Command::Store(key, value, ttl) => RequestView::Store(key@, value@, *ttl),
            Command::Del(key) => RequestView::Del(key@),
            Command::Has(key) => RequestView::Has(key@),
            Command::Peek(key) => RequestView::Peek(key@),
            Command::Ttl(key, ttl) => RequestView::Ttl(key@, *ttl),
            Command::Size(key) => RequestView::Size(key@),
            Command::Wipe => RequestView::Wipe,
            Command::Resize(size) => RequestView::Resize(*size),
            Command::Policy(policy) => RequestView::Policy(policy@),
            Command::Status => RequestView::Status,
        }
    }
}

/// A request with a text argument, made from its text.
pub open spec fn keyed(code: u8, text: Seq<char>) -> Option<RequestView> {
    if code == code_of_auth() {
        Some(RequestView::Auth(text))
    } else if code == code_of_get() {
        Some(RequestView::Get(text))
    } else if code == code_of_del() {
        Some(RequestView::Del(text))
    } else if code == code_of_has() {
        Some(RequestView::Has(text))
    } else if code == code_of_peek() {
        Some(RequestView::Peek(text))
    } else if code == code_of_size() {
        Some(RequestView::Size(text))
    } else {
        None
    }
}

/// A request as the server reads it: the request code, then the arguments
/// that the code calls for.
pub open spec fn take_request(b: Seq<u8>) -> Field<RequestView> {
    match take_u8(b, 0) {
        Field::Got(code, p) => if code == code_of_ping() {
            Field::Got(RequestView::Ping, p)
        } else if code == code_of_version() {
            Field::Got(RequestView::Version, p)
        } else if code == code_of_wipe() {
            Field::Got(RequestView::Wipe, p)
        } else if code == code_of_status() {
            Field::Got(RequestView::Status, p)
        } else if keyed(code, Seq::empty()) is Some {
            bind(take_string(b, p), |t: Seq<char>, q: int| Field::Got(keyed(code, t)->0, q))
        } else if code == code_of_set() {
            bind(take_string(b, p), |k: Seq<char>, q: int|
            bind(take_buf(b, q), |v: Seq<u8>, r: int|
            bind(take_u32(b, r), |t: u32, e: int| Field::Got(RequestView::Store(k, v, t), e))))
        } else if code == code_of_ttl() {
            bind(take_string(b, p), |k: Seq<char>, q: int|
            bind(take_u32(b, q), |t: u32, e: int| Field::Got(RequestView::Ttl(k, t), e)))
        } else if code == code_of_resize() {
            bind(take_u64(b, p), |v: u64, e: int| Field::Got(RequestView::Resize(v), e))
        } else if code == code_of_policy() {
            bind(take_policy(b, p), |pv: PolicyView, e: int| Field::Got(RequestView::Policy(pv), e))
        } else {
            Field::Bad(p)
        },
        _ => Field::Short,
    }
}

/// A request whose arguments fit their fields and whose policy, if any,
/// reads back from its text.
pub open spec fn request_sendable(r: RequestView) -> bool {
    match r {
        RequestView::Auth(t) => encode_utf8(t).len() <= u32::MAX,
        RequestView::Get(t) => encode_utf8(t).len() <= u32::MAX,
        RequestView::Store(k, v, _) => encode_utf8(k).len() <= u32::MAX && v.len() <= u32::MAX,
        RequestView::Del(t) => encode_utf8(t).len() <= u32::MAX,
        RequestView::Has(t) => encode_utf8(t).len() <= u32::MAX,
        RequestView::Peek(t) => encode_utf8(t).len() <= u32::MAX,
        RequestView::Ttl(t, _) => encode_utf8(t).len() <= u32::MAX,
        RequestView::Size(t) => encode_utf8(t).len() <= u32::MAX,
        RequestView::Policy(p) => policy_sendable(p),
        _ => true,
    }
}

/// A request with a text argument reads back as that request.
proof fn lemma_keyed_roundtrip(code: u8, text: Seq<char>)
    requires
        keyed(code, Seq::empty()) is Some,
        encode_utf8(text).len() <= u32::MAX,
    ensures
        take_request(seq![code] + str_field(text)) == Field::Got(
            keyed(code, text)->0,
            (seq![code] + str_field(text)).len() as int,
        ),
{
    let b = seq![code] + str_field(text);
    assert(b =~= seq![code] + str_field(text) + Seq::<u8>::empty());
    law_str_field_roundtrip(text, 1, Seq::empty(), seq![code]);
    assert(b[0] == code);
}

/// A request that starts with the `Store` code and whose fields each read
/// as given reads as that `Store` request.
proof fn lemma_store_of_fields(b: Seq<u8>, key: Seq<char>, value: Seq<u8>, ttl: u32, p1: int, p2: int, p3: int)
    requires
        b.len() >= 1,
        b[0] == code_of_set(),
        take_string(b, 1) == Field::Got(key, p1),
        take_buf(b, p1) == Field::Got(value, p2),
        take_u32(b, p2) == Field::Got(ttl, p3),
    ensures
        take_request(b) == Field::Got(RequestView::Store(key, value, ttl), p3),
{
}

/// The key of a `Store` request reads back.
proof fn lemma_store_key(key: Seq<char>, value: Seq<u8>, ttl: u32)
    requires
        encode_utf8(key).len() <= u32::MAX,
    ensures
        take_string(seq![code_of_set()] + str_field(key) + buf_field(value) + u32_le(ttl), 1) == Field::Got(
            key,
            1 + str_field(key).len() as int,
        ),
{
    let head = seq![code_of_set()];
    let k = str_field(key);
    let v = buf_field(value);
    let t = u32_le(ttl);
    assert(head + k + v + t == head + k + (v + t)) by {
        lemma_regroup(head + k, v, t);
    }
    law_str_field_roundtrip(key, 1, v + t, head);
}

/// The time to live of a `Store` request reads back.
proof fn lemma_store_ttl(key: Seq<char>, value: Seq<u8>, ttl: u32)
    ensures
        ({
            let b = seq![code_of_set()] + str_field(key) + buf_field(value) + u32_le(ttl);
            let p2 = 1 + str_field(key).len() + 4 + value.len();
            take_u32(b, p2 as int) == Field::Got(ttl, b.len() as int)
        }),
{
    let a = seq![code_of_set()] + str_field(key) + buf_field(value);
    let t = u32_le(ttl);
    assert(buf_field(value).len() == 4 + value.len());
    lemma_u32_le_roundtrip(ttl);
    assert((a + t).subrange(a.len() as int, a.len() + 4int) == t) by {
        lemma_regroup(a, t, Seq::empty());
    }
}

/// A `Ttl` request reads back with its key and time to live.
proof fn lemma_ttl_roundtrip(key: Seq<char>, ttl: u32)
    requires
        encode_utf8(key).len() <= u32::MAX,
    ensures
        ({
            let b = seq![code_of_ttl()] + str_field(key) + u32_le(ttl);
            take_request(b) == Field::Got(RequestView::Ttl(key, ttl), b.len() as int)
        }),
{
    let head = seq![code_of_ttl()];
    let t = u32_le(ttl);
    let b = head + str_field(key) + t;
    law_str_field_roundtrip(key, 1, t, head);
    lemma_u32_le_roundtrip(ttl);
    assert(b.subrange(b.len() - 4, b.len() as int) =~= t);
    assert(b[0] == code_of_ttl());
}

/// A `Resize` request reads back with its size.
proof fn lemma_resize_roundtrip(size: u64)
    ensures
        ({
            let b = seq![code_of_resize()] + u64_le(size);
            take_request(b) == Field::Got(RequestView::Resize(size), b.len() as int)
        }),
{
    let head = seq![code_of_resize()];
    let b = head + u64_le(size);
    assert(b =~= head + u64_le(size) + Seq::<u8>::empty());
    law_u64_field_roundtrip(size, head, Seq::empty());
    lemma_u64_le_roundtrip(size);
    assert(b[0] == code_of_resize());
}

/// A `Policy` request reads back with the policy it names.
proof fn lemma_policy_request_roundtrip(policy: PolicyView)
    requires
        policy_sendable(policy),
    ensures
        ({
            let b = seq![code_of_policy()] + str_field(policy_text(policy));
            take_request(b) == Field::Got(RequestView::Policy(policy), b.len() as int)
        }),
{
    let head = seq![code_of_policy()];
    let b = head + str_field(policy_text(policy));
    assert(b =~= head + str_field(policy_text(policy)) + Seq::<u8>::empty());
    law_policy_field_roundtrip(policy, head, Seq::empty());
    assert(b[0] == code_of_policy());
}

/// A request without arguments reads back as itself.
proof fn lemma_bare_roundtrip(code: u8)
    ensures
        take_u8(seq![code], 0) == Field::Got(code, 1int),
{
}

/// Every request reads back, as the server reads it, as the request that was
/// encoded, and takes all of its bytes: the key, the value, the time to
/// live, the size and the policy that a request carries are the ones it
/// was made with.
pub proof fn law_request_roundtrip(c: Command)
    requires
        request_sendable(c@),
    ensures
        take_request(c.encoding()) == Field::Got(c@, c.encoding().len() as int),
{
    match c {
        Command::Auth(t) => lemma_keyed_roundtrip(code_of_auth(), t@),
        Command::Get(t) => lemma_keyed_roundtrip(code_of_get(), t@),
        Command::Del(t) => lemma_keyed_roundtrip(code_of_del(), t@),
        Command::Has(t) => lemma_keyed_roundtrip(code_of_has(), t@),
        Command::Peek(t) => lemma_keyed_roundtrip(code_of_peek(), t@),
        Command::Size(t) => lemma_keyed_roundtrip(code_of_size(), t@),
        Command::Store(key, value, ttl) => {
            lemma_store_key(key@, value@, ttl);
            law_stored_value_reads_back(key@, value@, ttl);
            lemma_store_ttl(key@, value@, ttl);
            let b = c.encoding();
            let p1 = 1 + str_field(key@).len() as int;
            lemma_store_of_fields(b, key@, value@, ttl, p1, p1 + 4 + value@.len(), b.len() as int);
        },
        Command::Ttl(key, ttl) => lemma_ttl_roundtrip(key@, ttl),
        Command::Resize(size) => lemma_resize_roundtrip(size),
        Command::Policy(policy) => lemma_policy_request_roundtrip(policy@),
        Command::Ping => lemma_bare_roundtrip(code_of_ping()),
        Command::Version => lemma_bare_roundtrip(code_of_version()),
        Command::Wipe => lemma_bare_roundtrip(code_of_wipe()),
        Command::Status => lemma_bare_roundtrip(code_of_status()),
    }
}

impl<'a> Command<'a> {
    /// Reads the response to a request that only succeeds or fails.
    pub fn parse_stream(&self, buf: &[u8], at_end: bool) -> (r: Reply<()>)
        ensures
            r@ == spec_unit_reply(buf@, at_end),
    {
        let mut c = Cursor::new(buf);
        match c.read_bool() {
            Ok(true) => Reply::Done(Ok(()), c.pos),
            Ok(false) => failure_reply(&mut c, at_end),
            Err(f) => failed(f, &mut c, at_end),
        }
    }

    /// Reads the response that carries a value.
    pub fn parse_buf_stream(&self, buf: &[u8], at_end: bool) -> (r: Reply<PaperValue>)
        ensures
            r@ == spec_value_reply(buf@, at_end),
    {
        let mut c = Cursor::new(buf);
        match c.read_bool() {
            Ok(true) => match c.read_buf() {
                Ok(v) => Reply::Done(Ok(PaperValue::from(v)), c.pos),
                Err(f) => failed(f, &mut c, at_end),
            },
            Ok(false) => failure_reply(&mut c, at_end),
            Err(f) => failed(f, &mut c, at_end),
        }
    }

    /// Reads the response that tells whether a key is present.
    pub fn parse_has_stream(&self, buf: &[u8], at_end: bool) -> (r: Reply<bool>)
        ensures
            r@ == spec_has_reply(buf@, at_end),
    {
        let mut c = Cursor::new(buf);
        match c.read_bool() {
            Ok(true) => match c.read_bool() {
                Ok(has) => Reply::Done(Ok(has), c.pos),
                Err(f) => failed(f, &mut c, at_end),
            },
            Ok(false) => failure_reply(&mut c, at_end),
            Err(f) => failed(f, &mut c, at_end),
        }
    }

    /// Reads the response that tells a value's size in bytes.
    pub fn parse_size_stream(&self, buf: &[u8], at_end: bool) -> (r: Reply<u32>)
        ensures
            r@ == spec_size_reply(buf@, at_end),
    {
        let mut c = Cursor::new(buf);
        match c.read_bool() {
            Ok(true) => match c.read_u32() {
                Ok(size) => Reply::Done(Ok(size), c.pos),
                Err(f) => failed(f, &mut c, at_end),
            },
            Ok(false) => failure_reply(&mut c, at_end),
            Err(f) => failed(f, &mut c, at_end),
        }
    }

    /// Reads the response that carries the cache's status.
    pub fn parse_status_stream(&self, buf: &[u8], at_end: bool) -> (r: Reply<Status>)
        ensures
            r@ == spec_status_reply(buf@, at_end),
    {
        let mut c = Cursor::new(buf);
        match c.read_bool() {
            Ok(true) => match read_status(&mut c) {
                Ok(status) => Reply::Done(Ok(status), c.pos),
                Err(f) => failed(f, &mut c, at_end),
            },
            Ok(false) => failure_reply(&mut c, at_end),
            Err(f) => failed(f, &mut c, at_end),
        }
    }

    /// Reads the response that carries the cache's statistics.
    pub fn parse_stats_stream(&self, buf: &[u8], at_end: bool) -> (r: Reply<Stats>)
        ensures
            r@ == spec_stats_reply(buf@, at_end),
    {
        let mut c = Cursor::new(buf);
        match c.read_bool() {
            Ok(true) => match read_stats(&mut c) {
                Ok(stats) => Reply::Done(Ok(stats), c.pos),
                Err(f) => failed(f, &mut c, at_end),
            },
            Ok(false) => failure_reply(&mut c, at_end),
            Err(f) => failed(f, &mut c, at_end),
        }
    }
}

} // verus!
