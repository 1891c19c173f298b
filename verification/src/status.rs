//! Reports of the cache's state, as the server sends them.
use vstd::prelude::*;

use crate::policy::{dash_free, law_policy_text_roundtrip, policy_text, spec_parse_policy, PaperPolicy, PolicyView};
use vstd::utf8::encode_utf8;
use crate::wire::{lemma_middle_subrange, lemma_six_parts, lemma_two_parts, law_u64s_roundtrip, lemma_u64s_bytes, u64s_bytes, bool_byte, lemma_u32_le_roundtrip, u32_le, law_str_field_roundtrip, lemma_u64_le_roundtrip, str_field, u64_le, end_of, lemma_bool_stable, lemma_string_stable, lemma_u32_stable, lemma_u64_stable, stable, u32_from_le, u64_from_le, bind, read_as, take_bool, take_string, take_u32, take_u64, Cursor, Field, ReadFailure, abandon};

verus! {

/// The cache's status. The miss ratio is kept as the bits of the `f64` that
/// the server sent (`f64::from_bits` gives the ratio back).
pub struct Status {
    pid: u32,
    max_size: u64,
    used_size: u64,
    num_objects: u64,
    rss: u64,
    hwm: u64,
    total_gets: u64,
    total_sets: u64,
    total_dels: u64,
    miss_ratio_bits: u64,
    policies: Vec<PaperPolicy>,
    policy: PaperPolicy,
    is_auto_policy: bool,
    uptime: u64,
}

/// The mathematical model of a status report.
pub struct StatusView {
    pub pid: u32,
    pub max_size: u64,
    pub used_size: u64,
    pub num_objects: u64,
    pub rss: u64,
    pub hwm: u64,
    pub total_gets: u64,
    pub total_sets: u64,
    pub total_dels: u64,
    pub miss_ratio_bits: u64,
    pub policies: Seq<PolicyView>,
    pub policy: PolicyView,
    pub is_auto_policy: bool,
    pub uptime: u64,
}

/// The models of a list of policies.
pub open spec fn policy_views(ps: Seq<PaperPolicy>) -> Seq<PolicyView> {
    ps.map_values(|p: PaperPolicy| p@)
}

impl View for Status {
    type V = StatusView;

    closed spec fn view(&self) -> StatusView {
        StatusView {
            pid: self.pid,
            max_size: self.max_size,
            used_size: self.used_size,
            num_objects: self.num_objects,
            rss: self.rss,
            hwm: self.hwm,
            total_gets: self.total_gets,
            total_sets: self.total_sets,
            total_dels: self.total_dels,
            miss_ratio_bits: self.miss_ratio_bits,
            policies: policy_views(self.policies@),
            policy: self.policy@,
            is_auto_policy: self.is_auto_policy,
            uptime: self.uptime,
        }
    }
}

impl Status {
    /// A status report with the given fields.
    pub fn new(
        pid: u32,
        max_size: u64,
        used_size: u64,
        num_objects: u64,
        rss: u64,
        hwm: u64,
        total_gets: u64,
        total_sets: u64,
        total_dels: u64,
        miss_ratio_bits: u64,
        policies: Vec<PaperPolicy>,
        policy: PaperPolicy,
        is_auto_policy: bool,
        uptime: u64,
    ) -> (s: Self)
        ensures
            s@ == (StatusView {
                pid,
                max_size,
                used_size,
                num_objects,
                rss,
                hwm,
                total_gets,
                total_sets,
                total_dels,
                miss_ratio_bits,
                policies: policy_views(policies@),
                policy: policy@,
                is_auto_policy,
                uptime,
            }),
    {
        Status {
            pid,
            max_size,
            used_size,
            num_objects,
            rss,
            hwm,
            total_gets,
            total_sets,
            total_dels,
            miss_ratio_bits,
            policies,
            policy,
            is_auto_policy,
            uptime,
        }
    }

    /// The cache's process id.
    pub fn pid(&self) -> (v: u32)
        ensures
            v == self@.pid,
    {
        self.pid
    }

    /// The cache's maximum size in bytes.
    pub fn max_size(&self) -> (v: u64)
        ensures
            v == self@.max_size,
    {
        self.max_size
    }

    /// The cache's used size in bytes.
    pub fn used_size(&self) -> (v: u64)
        ensures
            v == self@.used_size,
    {
        self.used_size
    }

    /// The number of objects in the cache.
    pub fn num_objects(&self) -> (v: u64)
        ensures
            v == self@.num_objects,
    {
        self.num_objects
    }

    /// The cache's resident set size.
    pub fn rss(&self) -> (v: u64)
        ensures
            v == self@.rss,
    {
        self.rss
    }

    /// The high water mark of the cache's resident set size.
    pub fn hwm(&self) -> (v: u64)
        ensures
            v == self@.hwm,
    {
        self.hwm
    }

    /// The cache's total number of gets.
    pub fn total_gets(&self) -> (v: u64)
        ensures
            v == self@.total_gets,
    {
        self.total_gets
    }

    /// The cache's total number of sets.
    pub fn total_sets(&self) -> (v: u64)
        ensures
            v == self@.total_sets,
    {
        self.total_sets
    }

    /// The cache's total number of dels.
    pub fn total_dels(&self) -> (v: u64)
        ensures
            v == self@.total_dels,
    {
        self.total_dels
    }

    /// The bits of the cache's miss ratio, an `f64`.
    pub fn miss_ratio_bits(&self) -> (v: u64)
        ensures
            v == self@.miss_ratio_bits,
    {
        self.miss_ratio_bits
    }

    /// The cache's configured eviction policies.
    pub fn policies(&self) -> (ps: &[PaperPolicy])
        ensures
            policy_views(ps@) == self@.policies,
    {
        self.policies.as_slice()
    }

    /// The cache's eviction policy.
    pub fn policy(&self) -> (p: &PaperPolicy)
        ensures
            p@ == self@.policy,
    {
        &self.policy
    }

    /// Whether the cache is configured to the `Auto` eviction policy.
    pub fn is_auto_policy(&self) -> (v: bool)
        ensures
            v == self@.is_auto_policy,
    {
        self.is_auto_policy
    }

    /// The cache's uptime.
    pub fn uptime(&self) -> (v: u64)
        ensures
            v == self@.uptime,
    {
        self.uptime
    }
}

/// A policy field: a text field that names a policy.
pub open spec fn take_policy(b: Seq<u8>, p: int) -> Field<PolicyView> {
    match take_string(b, p) {
        Field::Got(t, q) => match spec_parse_policy(t) {
            Some(pv) => Field::Got(pv, q),
            None => Field::Bad(q),
        },
        Field::Short => Field::Short,
        Field::Bad(q) => Field::Bad(q),
    }
}

/// `n` policy fields in a row.
pub open spec fn take_policies(b: Seq<u8>, p: int, n: nat) -> Field<Seq<PolicyView>>
    decreases n,
{
    if n == 0 {
        Field::Got(Seq::empty(), p)
    } else {
        bind(
            take_policies(b, p, (n - 1) as nat),
            |ps: Seq<PolicyView>, q: int|
                bind(take_policy(b, q), |pv: PolicyView, r: int| Field::Got(ps.push(pv), r)),
        )
    }
}

/// The fixed-size numbers at the start of a status report.
#[derive(Debug, Clone, Copy, PartialEq, Eq, Structural)]
pub struct StatusCounts {
    pub pid: u32,
    pub max_size: u64,
    pub used_size: u64,
    pub num_objects: u64,
    pub rss: u64,
    pub hwm: u64,
    pub total_gets: u64,
    pub total_sets: u64,
    pub total_dels: u64,
    pub miss_ratio_bits: u64,
}

/// The little-endian `u64` at byte `k`.
pub open spec fn u64_at(b: Seq<u8>, k: int) -> u64 {
    u64_from_le(b.subrange(k, k + 8))
}

/// The numbers of a status report, 76 bytes: the process id (`u32`); then
/// the maximum size, used size, object count, resident set size and its
/// high water mark, total gets, sets and dels, and the bits of the miss
/// ratio (`u64` each).
pub open spec fn take_counts(b: Seq<u8>, p: int) -> Field<StatusCounts> {
    if p + 76 > b.len() {
        Field::Short
    } else {
        Field::Got(
            StatusCounts {
                pid: u32_from_le(b.subrange(p, p + 4)),
                max_size: u64_at(b, p + 4),
                used_size: u64_at(b, p + 12),
                num_objects: u64_at(b, p + 20),
                rss: u64_at(b, p + 28),
                hwm: u64_at(b, p + 36),
                total_gets: u64_at(b, p + 44),
                total_sets: u64_at(b, p + 52),
                total_dels: u64_at(b, p + 60),
                miss_ratio_bits: u64_at(b, p + 68),
            },
            p + 76,
        )
    }
}

/// The status report made of its parts.
pub open spec fn status_view_of(
    n: StatusCounts,
    policies: Seq<PolicyView>,
    policy: PolicyView,
    is_auto_policy: bool,
    uptime: u64,
) -> StatusView {
    StatusView {
        pid: n.pid,
        max_size: n.max_size,
        used_size: n.used_size,
        num_objects: n.num_objects,
        rss: n.rss,
        hwm: n.hwm,
        total_gets: n.total_gets,
        total_sets: n.total_sets,
        total_dels: n.total_dels,
        miss_ratio_bits: n.miss_ratio_bits,
        policies,
        policy,
        is_auto_policy,
        uptime,
    }
}

/// The body of a status response: its numbers; the number of configured
/// policies (`u32`) and each policy; the current policy; whether it is
/// automatic (boolean); the uptime (`u64`).
pub open spec fn take_status(b: Seq<u8>, p: int) -> Field<StatusView> {
    bind(take_counts(b, p), |n: StatusCounts, p: int|
    bind(take_u32(b, p), |count: u32, p: int|
    bind(take_policies(b, p, count as nat), |policies: Seq<PolicyView>, p: int|
    bind(take_policy(b, p), |policy: PolicyView, p: int|
    bind(take_bool(b, p), |is_auto_policy: bool, p: int|
    bind(take_u64(b, p), |uptime: u64, p: int|
        Field::Got(status_view_of(n, policies, policy, is_auto_policy, uptime), p)
    ))))))
}

pub proof fn lemma_policy_stable(b: Seq<u8>, e: Seq<u8>, p: int)
    requires
        0 <= p,
    ensures
        stable(take_policy(b, p), take_policy(b + e, p), p, b.len() as int),
{
    lemma_string_stable(b, e, p);
}

pub proof fn lemma_policies_stable(b: Seq<u8>, e: Seq<u8>, p: int, n: nat)
    requires
        0 <= p <= b.len(),
    ensures
        stable(take_policies(b, p, n), take_policies(b + e, p, n), p, b.len() as int),
    decreases n,
{
    if n > 0 {
        let m = (n - 1) as nat;
        lemma_policies_stable(b, e, p, m);
        if let Field::Got(ps, q) = take_policies(b, p, m) {
            lemma_policy_stable(b, e, q);
        }
    }
}

pub proof fn lemma_counts_stable(b: Seq<u8>, e: Seq<u8>, p: int)
    requires
        0 <= p,
    ensures
        stable(take_counts(b, p), take_counts(b + e, p), p, b.len() as int),
{
    if p + 76 <= b.len() {
        assert((b + e).subrange(p, p + 4) =~= b.subrange(p, p + 4));
        assert forall|k: int| p <= k <= p + 68 implies u64_at(b + e, k) == u64_at(b, k) by {
            assert((b + e).subrange(k, k + 8) =~= b.subrange(k, k + 8));
        }
    }
}

pub proof fn lemma_status_stable(b: Seq<u8>, e: Seq<u8>, p: int)
    requires
        0 <= p,
    ensures
        stable(take_status(b, p), take_status(b + e, p), p, b.len() as int),
{
    lemma_counts_stable(b, e, p);
    if let Field::Got(n, p1) = take_counts(b, p) {
        lemma_u32_stable(b, e, p1);
        if let Field::Got(count, p2) = take_u32(b, p1) {
            lemma_policies_stable(b, e, p2, count as nat);
            if let Field::Got(policies, p3) = take_policies(b, p2, count as nat) {
                lemma_policy_stable(b, e, p3);
                if let Field::Got(policy, p4) = take_policy(b, p3) {
                    lemma_bool_stable(b, e, p4);
                    if let Field::Got(auto, p5) = take_bool(b, p4) {
                        lemma_u64_stable(b, e, p5);
                    }
                }
            }
        }
    }
}

/// The policy that a `Policy` request names is the policy a report's
/// policy field reads back from the same text, provided its 2Q parameters
/// are texts of numbers without a `-` and the text's UTF-8 bytes fit the
/// `u32` prefix.
pub proof fn law_policy_field_roundtrip(policy: PolicyView, before: Seq<u8>, rest: Seq<u8>)
    requires
        policy.well_formed(),
        policy matches PolicyView::TwoQ(k_in, k_out) ==> dash_free(k_in) && dash_free(k_out),
        encode_utf8(policy_text(policy)).len() <= u32::MAX,
    ensures
        take_policy(before + str_field(policy_text(policy)) + rest, before.len() as int)
            == Field::Got(policy, (before.len() + 4 + encode_utf8(policy_text(policy)).len()) as int),
{
    law_str_field_roundtrip(policy_text(policy), before.len() as int, rest, before);
    law_policy_text_roundtrip(policy);
}

/// A report's numbers read back as the numbers that were written.
pub proof fn law_u64_field_roundtrip(v: u64, before: Seq<u8>, rest: Seq<u8>)
    ensures
        take_u64(before + u64_le(v) + rest, before.len() as int) == Field::Got(v, (before.len() + 8) as int),
{
    lemma_u64_le_roundtrip(v);
    let b = before + u64_le(v) + rest;
    assert(b.subrange(before.len() as int, (before.len() + 8) as int) =~= u64_le(v));
}

/// The `u64`s of a status report's numbers, after the process id.
pub open spec fn count_values(n: StatusCounts) -> Seq<u64> {
    seq![
        n.max_size,
        n.used_size,
        n.num_objects,
        n.rss,
        n.hwm,
        n.total_gets,
        n.total_sets,
        n.total_dels,
        n.miss_ratio_bits,
    ]
}

/// The bytes of a status report's numbers, as the server writes them: the
/// process id, then the other numbers in the order the report holds them.
pub open spec fn counts_bytes(n: StatusCounts) -> Seq<u8> {
    u32_le(n.pid) + u64s_bytes(count_values(n))
}

/// The numbers of a status report read back as the numbers written.
pub proof fn law_counts_roundtrip(n: StatusCounts, before: Seq<u8>, rest: Seq<u8>)
    ensures
        counts_bytes(n).len() == 76,
        take_counts(before + counts_bytes(n) + rest, before.len() as int) == Field::Got(
            n,
            (before.len() + 76) as int,
        ),
{
    let vs = count_values(n);
    let w0 = u32_le(n.pid);
    let u = u64s_bytes(vs);
    let b = before + counts_bytes(n) + rest;
    let p = before.len() as int;
    lemma_u64s_bytes(vs);
    lemma_u32_le_roundtrip(n.pid);
    assert(counts_bytes(n).len() == 76);
    assert(u32_from_le(b.subrange(p, p + 4)) == n.pid) by {
        lemma_middle_subrange(before, w0 + u, rest, 0, 4);
        assert((w0 + u).subrange(0, 4) =~= w0);
    }
    lemma_two_parts(before, w0, u, rest);
    let q = before + w0;
    assert(q.len() == p + 4);
    assert forall|i: int| 0 <= i < 9 implies u64_at(b, p + 4 + 8 * i) == #[trigger] vs[i] by {
        law_u64s_roundtrip(vs, q, rest, i);
    }
    assert(u64_at(b, p + 4) == vs[0]);
    assert(u64_at(b, p + 12) == vs[1]);
    assert(u64_at(b, p + 20) == vs[2]);
    assert(u64_at(b, p + 28) == vs[3]);
    assert(u64_at(b, p + 36) == vs[4]);
    assert(u64_at(b, p + 44) == vs[5]);
    assert(u64_at(b, p + 52) == vs[6]);
    assert(u64_at(b, p + 60) == vs[7]);
    assert(u64_at(b, p + 68) == vs[8]);
}

/// A policy whose text reads back as the policy: its 2Q parameters are
/// texts of numbers without a `-`, and its text fits a field.
pub open spec fn policy_sendable(p: PolicyView) -> bool {
    &&& p.well_formed()
    &&& p matches PolicyView::TwoQ(k_in, k_out) ==> dash_free(k_in) && dash_free(k_out)
    &&& encode_utf8(policy_text(p)).len() <= u32::MAX
}

/// The policy fields of a list of policies, one after another.
pub open spec fn policy_fields(ps: Seq<PolicyView>) -> Seq<u8>
    decreases ps.len(),
{
    if ps.len() == 0 {
        Seq::empty()
    } else {
        policy_fields(ps.drop_last()) + str_field(policy_text(ps.last()))
    }
}

/// A run of policy fields reads back as the policies written.
pub proof fn law_policies_roundtrip(ps: Seq<PolicyView>, before: Seq<u8>, rest: Seq<u8>)
    requires
        forall|i: int| 0 <= i < ps.len() ==> policy_sendable(#[trigger] ps[i]),
    ensures
        take_policies(before + policy_fields(ps) + rest, before.len() as int, ps.len()) == Field::Got(
            ps,
            (before.len() + policy_fields(ps).len()) as int,
        ),
    decreases ps.len(),
{
    let b = before + policy_fields(ps) + rest;
    let p = before.len() as int;
    if ps.len() == 0 {
        assert(ps =~= Seq::<PolicyView>::empty());
    } else {
        let init = ps.drop_last();
        let last = ps.last();
        let field = str_field(policy_text(last));
        assert forall|i: int| 0 <= i < init.len() implies policy_sendable(#[trigger] init[i]) by {
            assert(init[i] == ps[i]);
        }
        assert(policy_sendable(ps[ps.len() - 1]));
        assert(policy_fields(ps) == policy_fields(init) + field);
        assert(b =~= before + policy_fields(init) + (field + rest));
        law_policies_roundtrip(init, before, field + rest);
        let q = p + policy_fields(init).len();
        assert(take_policies(b, p, init.len()) == Field::Got(init, q));
        assert(b =~= (before + policy_fields(init)) + field + rest);
        law_policy_field_roundtrip(last, before + policy_fields(init), rest);
        let r = q + 4 + encode_utf8(policy_text(last)).len();
        assert(take_policy(b, q) == Field::Got(last, r));
        assert(init.push(last) =~= ps);
        assert(init.len() == (ps.len() - 1) as nat);
        assert(take_policies(b, p, ps.len()) == Field::Got(init.push(last), r));
    }
}

/// The bytes of a status report's body, as the server writes it.
pub open spec fn status_body(s: StatusView) -> Seq<u8> {
    counts_bytes(status_counts_of(s)) + u32_le(s.policies.len() as u32) + policy_fields(s.policies)
        + str_field(policy_text(s.policy)) + seq![bool_byte(s.is_auto_policy)] + u64_le(s.uptime)
}

/// The numbers of a status report.
pub open spec fn status_counts_of(s: StatusView) -> StatusCounts {
    StatusCounts {
        pid: s.pid,
        max_size: s.max_size,
        used_size: s.used_size,
        num_objects: s.num_objects,
        rss: s.rss,
        hwm: s.hwm,
        total_gets: s.total_gets,
        total_sets: s.total_sets,
        total_dels: s.total_dels,
        miss_ratio_bits: s.miss_ratio_bits,
    }
}

/// A report that the server can send: its policies fit a count and each
/// reads back from its text.
pub open spec fn status_sendable(s: StatusView) -> bool {
    &&& s.policies.len() <= u32::MAX
    &&& forall|i: int| 0 <= i < s.policies.len() ==> policy_sendable(#[trigger] s.policies[i])
    &&& policy_sendable(s.policy)
}

/// A status body whose fields each read as given reads as the report
/// made of them.
proof fn lemma_status_of_fields(
    b: Seq<u8>,
    p0: int,
    n: StatusCounts,
    ps: Seq<PolicyView>,
    policy: PolicyView,
    auto: bool,
    uptime: u64,
    p1: int,
    p2: int,
    p3: int,
    p4: int,
    p5: int,
    p6: int,
)
    requires
        take_counts(b, p0) == Field::Got(n, p1),
        ps.len() <= u32::MAX,
        take_u32(b, p1) == Field::Got(ps.len() as u32, p2),
        take_policies(b, p2, ps.len()) == Field::Got(ps, p3),
        take_policy(b, p3) == Field::Got(policy, p4),
        take_bool(b, p4) == Field::Got(auto, p5),
        take_u64(b, p5) == Field::Got(uptime, p6),
    ensures
        take_status(b, p0) == Field::Got(status_view_of(n, ps, policy, auto, uptime), p6),
{
    assert((ps.len() as u32) as nat == ps.len());
}

/// The parts of a status body, in order.
pub open spec fn status_parts(s: StatusView) -> (Seq<u8>, Seq<u8>, Seq<u8>, Seq<u8>, Seq<u8>, Seq<u8>) {
    (
        counts_bytes(status_counts_of(s)),
        u32_le(s.policies.len() as u32),
        policy_fields(s.policies),
        str_field(policy_text(s.policy)),
        seq![bool_byte(s.is_auto_policy)],
        u64_le(s.uptime),
    )
}

/// The numbers and the policy count of a status body read back.
proof fn lemma_status_head(s: StatusView, before: Seq<u8>, rest: Seq<u8>)
    requires
        s.policies.len() <= u32::MAX,
    ensures
        ({
            let (c, l, f, t, a, u) = status_parts(s);
            let b = before + (c + l + f + t + a + u) + rest;
            let p1 = before.len() + 76int;
            &&& c.len() == 76
            &&& l.len() == 4
            &&& take_counts(b, before.len() as int) == Field::Got(status_counts_of(s), p1)
            &&& take_u32(b, p1) == Field::Got(s.policies.len() as u32, p1 + 4)
        }),
{
    let (c, l, f, t, a, u) = status_parts(s);
    lemma_six_parts(before, c, l, f, t, a, u, rest);
    law_counts_roundtrip(status_counts_of(s), before, l + f + t + a + u + rest);
    lemma_u32_le_roundtrip(s.policies.len() as u32);
    lemma_middle_subrange(before + c, l, f + t + a + u + rest, 0, 4);
    assert(l.subrange(0, 4) =~= l);
}

/// The policies of a status body read back.
proof fn lemma_status_policies(s: StatusView, before: Seq<u8>, rest: Seq<u8>)
    requires
        status_sendable(s),
    ensures
        ({
            let (c, l, f, t, a, u) = status_parts(s);
            let b = before + (c + l + f + t + a + u) + rest;
            let p2 = (before.len() + c.len() + l.len()) as int;
            &&& take_policies(b, p2, s.policies.len()) == Field::Got(s.policies, p2 + f.len())
            &&& take_policy(b, p2 + f.len()) == Field::Got(s.policy, p2 + f.len() + t.len())
        }),
{
    let (c, l, f, t, a, u) = status_parts(s);
    lemma_six_parts(before, c, l, f, t, a, u, rest);
    law_policies_roundtrip(s.policies, before + c + l, t + a + u + rest);
    law_policy_field_roundtrip(s.policy, before + c + l + f, a + u + rest);
}

/// The auto flag and the uptime of a status body read back.
proof fn lemma_status_tail(s: StatusView, before: Seq<u8>, rest: Seq<u8>)
    ensures
        ({
            let (c, l, f, t, a, u) = status_parts(s);
            let b = before + (c + l + f + t + a + u) + rest;
            let p4 = (before.len() + c.len() + l.len() + f.len() + t.len()) as int;
            &&& take_bool(b, p4) == Field::Got(s.is_auto_policy, p4 + 1)
            &&& take_u64(b, p4 + 1) == Field::Got(s.uptime, p4 + 9)
            &&& u.len() == 8
        }),
{
    let (c, l, f, t, a, u) = status_parts(s);
    lemma_six_parts(before, c, l, f, t, a, u, rest);
    lemma_u64_le_roundtrip(s.uptime);
    let q = before + c + l + f + t;
    lemma_middle_subrange(q, a, u + rest, 0, 1);
    assert((q + a + (u + rest))[q.len() as int] == (q + a + (u + rest)).subrange(q.len() as int, q.len() + 1int)[0]);
    law_u64_field_roundtrip(s.uptime, q + a, rest);
}

/// A status report reads back as the report written, every field of it:
/// the numbers, the configured policies, the current policy, whether it
/// is automatic, and the uptime.
pub proof fn law_status_roundtrip(s: StatusView, before: Seq<u8>, rest: Seq<u8>)
    requires
        status_sendable(s),
    ensures
        take_status(before + status_body(s) + rest, before.len() as int) == Field::Got(
            s,
            (before.len() + status_body(s).len()) as int,
        ),
{
    let (c, l, f, t, a, u) = status_parts(s);
    let b = before + status_body(s) + rest;
    assert(status_body(s) == c + l + f + t + a + u);
    lemma_status_head(s, before, rest);
    lemma_status_policies(s, before, rest);
    lemma_status_tail(s, before, rest);
    let p1 = before.len() + 76int;
    let p2 = p1 + 4;
    let p3 = p2 + f.len();
    let p4 = p3 + t.len();
    lemma_status_of_fields(
        b,
        before.len() as int,
        status_counts_of(s),
        s.policies,
        s.policy,
        s.is_auto_policy,
        s.uptime,
        p1,
        p2,
        p3,
        p4,
        p4 + 1,
        p4 + 9,
    );
    assert(status_view_of(status_counts_of(s), s.policies, s.policy, s.is_auto_policy, s.uptime) == s);
}

/// A failed run of policy fields stays failed, the same way, however many
/// more fields were asked for.
proof fn lemma_policies_failure_sticks(b: Seq<u8>, p: int, i: nat, n: nat)
    requires
        i <= n,
        !(take_policies(b, p, i) is Got),
    ensures
        take_policies(b, p, n) == take_policies(b, p, i),
    decreases n - i,
{
    if i < n {
        lemma_policies_failure_sticks(b, p, i, (n - 1) as nat);
    }
}

/// Reads a policy field.
pub fn read_policy(c: &mut Cursor) -> (r: Result<PaperPolicy, ReadFailure>)
    requires
        old(c).pos <= old(c).buf@.len(),
    ensures
        final(c).buf == old(c).buf,
        old(c).pos <= final(c).pos <= final(c).buf@.len(),
        read_as(take_policy(old(c).buf@, old(c).pos as int), r, |x: PaperPolicy| x@, old(c).pos, final(c).pos),
{
    let text = match c.read_string() {
        Ok(t) => t,
        Err(f) => return Err(f),
    };
    match PaperPolicy::from_text(text.as_str()) {
        Ok(p) => Ok(p),
        Err(_) => Err(ReadFailure::Malformed),
    }
}

/// Reads `n` policy fields in a row.
pub fn read_policies(c: &mut Cursor, n: u32) -> (r: Result<Vec<PaperPolicy>, ReadFailure>)
    requires
        old(c).pos <= old(c).buf@.len(),
    ensures
        final(c).buf == old(c).buf,
        old(c).pos <= final(c).pos <= final(c).buf@.len(),
        read_as(
            take_policies(old(c).buf@, old(c).pos as int, n as nat),
            r,
            |x: Vec<PaperPolicy>| policy_views(x@),
            old(c).pos,
            final(c).pos,
        ),
{
    let ghost b = c.buf@;
    let ghost orig = c.buf;
    let start_pos = c.pos;
    let ghost start = c.pos as int;
    let mut policies: Vec<PaperPolicy> = Vec::new();
    let mut i: u32 = 0;
    assert(policy_views(policies@) =~= Seq::<PolicyView>::empty());
    while i < n
        invariant
            i <= n,
            c.buf@ == b,
            c.buf == orig,
            start_pos <= c.pos,
            old(c).buf == orig,
            old(c).pos == start_pos,
            c.pos <= c.buf@.len(),
            start == start_pos,
            start_pos <= c.buf@.len(),
            take_policies(b, start, i as nat) == Field::Got(policy_views(policies@), c.pos as int),
        decreases n - i,
    {
        match read_policy(c) {
            Ok(p) => {
                let ghost old_views = policy_views(policies@);
                policies.push(p);
                assert(policy_views(policies@) =~= old_views.push(p@));
                i = i + 1;
            },
            Err(f) => {
                proof {
                    assert(!(take_policies(b, start, (i + 1) as nat) is Got));
                    lemma_policies_failure_sticks(b, start, (i + 1) as nat, n as nat);
                }
                if f == ReadFailure::Truncated {
                    c.pos = start_pos;
                }
                return Err(f);
            },
        }
    }
    Ok(policies)
}

/// Reads the numbers of a status report.
pub fn read_counts(c: &mut Cursor) -> (r: Result<StatusCounts, ReadFailure>)
    requires
        old(c).pos <= old(c).buf@.len(),
    ensures
        final(c).buf == old(c).buf,
        old(c).pos <= final(c).pos <= final(c).buf@.len(),
        read_as(take_counts(old(c).buf@, old(c).pos as int), r, |x: StatusCounts| x, old(c).pos, final(c).pos),
{
    let start = c.pos;
    if c.buf.len() - start < 76 {
        return Err(ReadFailure::Truncated);
    }
    let pid = match c.read_u32() {
        Ok(v) => v,
        Err(f) => return abandon(c, start, f),
    };
    let max_size = match c.read_u64() {
        Ok(v) => v,
        Err(f) => return abandon(c, start, f),
    };
    let used_size = match c.read_u64() {
        Ok(v) => v,
        Err(f) => return abandon(c, start, f),
    };
    let num_objects = match c.read_u64() {
        Ok(v) => v,
        Err(f) => return abandon(c, start, f),
    };
    let rss = match c.read_u64() {
        Ok(v) => v,
        Err(f) => return abandon(c, start, f),
    };
    let hwm = match c.read_u64() {
        Ok(v) => v,
        Err(f) => return abandon(c, start, f),
    };
    let total_gets = match c.read_u64() {
        Ok(v) => v,
        Err(f) => return abandon(c, start, f),
    };
    let total_sets = match c.read_u64() {
        Ok(v) => v,
        Err(f) => return abandon(c, start, f),
    };
    let total_dels = match c.read_u64() {
        Ok(v) => v,
        Err(f) => return abandon(c, start, f),
    };
    let miss_ratio_bits = match c.read_u64() {
        Ok(v) => v,
        Err(f) => return abandon(c, start, f),
    };
    Ok(StatusCounts {
        pid,
        max_size,
        used_size,
        num_objects,
        rss,
        hwm,
        total_gets,
        total_sets,
        total_dels,
        miss_ratio_bits,
    })
}

/// Reads the body of a status response.
pub fn read_status(c: &mut Cursor) -> (r: Result<Status, ReadFailure>)
    requires
        old(c).pos <= old(c).buf@.len(),
    ensures
        final(c).buf == old(c).buf,
        old(c).pos <= final(c).pos <= final(c).buf@.len(),
        read_as(take_status(old(c).buf@, old(c).pos as int), r, |x: Status| x@, old(c).pos, final(c).pos),
{
    let start = c.pos;
    let n = match read_counts(c) {
        Ok(v) => v,
        Err(f) => return abandon(c, start, f),
    };
    let count = match c.read_u32() {
        Ok(v) => v,
        Err(f) => return abandon(c, start, f),
    };
    let policies = match read_policies(c, count) {
        Ok(v) => v,
        Err(f) => return abandon(c, start, f),
    };
    let policy = match read_policy(c) {
        Ok(v) => v,
        Err(f) => return abandon(c, start, f),
    };
    let is_auto_policy = match c.read_bool() {
        Ok(v) => v,
        Err(f) => return abandon(c, start, f),
    };
    let uptime = match c.read_u64() {
        Ok(v) => v,
        Err(f) => return abandon(c, start, f),
    };
    Ok(Status::new(
        n.pid,
        n.max_size,
        n.used_size,
        n.num_objects,
        n.rss,
        n.hwm,
        n.total_gets,
        n.total_sets,
        n.total_dels,
        n.miss_ratio_bits,
        policies,
        policy,
        is_auto_policy,
        uptime,
    ))
}

} // verus!
