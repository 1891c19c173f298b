//! The cache's statistics, in the shorter report layout.
use vstd::prelude::*;

use crate::policy::{spec_parse_policy, PaperPolicy, PolicyView};
use crate::status::{law_u64_field_roundtrip, policy_sendable, policy_views, u64_at};
use crate::policy::{law_policy_text_roundtrip, policy_text};
use crate::wire::{bool_byte, law_str_field_roundtrip, law_u64s_roundtrip, lemma_four_parts, lemma_middle_subrange, lemma_u64_le_roundtrip, lemma_u64s_bytes, str_field, u64_le, u64s_bytes, lemma_bool_stable, lemma_string_stable, lemma_u64_stable, stable, abandon, bind, read_as, take_bool, take_string, take_u64, Cursor, Field, ReadFailure};

verus! {

/// The cache's statistics. The miss ratio is kept as the bits of the `f64`
/// that the server sent (`f64::from_bits` gives the ratio back).
pub struct Stats {
    max_size: u64,
    used_size: u64,
    num_objects: u64,
    total_gets: u64,
    total_sets: u64,
    total_dels: u64,
    miss_ratio_bits: u64,
    policies: Vec<PaperPolicy>,
    policy: PaperPolicy,
    is_auto_policy: bool,
    uptime: u64,
}

/// The mathematical model of a statistics report.
pub struct StatsView {
    pub max_size: u64,
    pub used_size: u64,
    pub num_objects: u64,
    pub total_gets: u64,
    pub total_sets: u64,
    pub total_dels: u64,
    pub miss_ratio_bits: u64,
    pub policies: Seq<PolicyView>,
    pub policy: PolicyView,
    pub is_auto_policy: bool,
    pub uptime: u64,
}

impl View for Stats {
    type V = StatsView;

    closed spec fn view(&self) -> StatsView {
        StatsView {
            max_size: self.max_size,
            used_size: self.used_size,
            num_objects: self.num_objects,
            total_gets: self.total_gets,
            total_sets: self.total_sets,
            total_dels: self.total_dels,
            miss_ratio_bits: self.miss_ratio_bits,
            policies: policy_views(self.policies@),
            policy: self.policy@,
            is_auto_policy: self.is_auto_policy,
            uptime: self.uptime,
        }
    }
}

impl Stats {
    /// A statistics report with the given fields.
    pub fn new(
        max_size: u64,
        used_size: u64,
        num_objects: u64,
        total_gets: u64,
        total_sets: u64,
        total_dels: u64,
        miss_ratio_bits: u64,
        policies: Vec<PaperPolicy>,
        policy: PaperPolicy,
        is_auto_policy: bool,
        uptime: u64,
    ) -> (s: Self)
        ensures
            s@ == (StatsView {
                max_size,
                used_size,
                num_objects,
                total_gets,
                total_sets,
                total_dels,
                miss_ratio_bits,
                policies: policy_views(policies@),
                policy: policy@,
                is_auto_policy,
                uptime,
            }),
    {
        Stats {
            max_size,
            used_size,
            num_objects,
            total_gets,
            total_sets,
            total_dels,
            miss_ratio_bits,
            policies,
            policy,
            is_auto_policy,
            uptime,
        }
    }

    /// The cache's maximum size in bytes.
    pub fn get_max_size(&self) -> (v: u64)
        ensures
            v == self@.max_size,
    {
        self.max_size
    }

    /// The cache's used size in bytes.
    pub fn get_used_size(&self) -> (v: u64)
        ensures
            v == self@.used_size,
    {
        self.used_size
    }

    /// The number of objects in the cache.
    pub fn get_num_objects(&self) -> (v: u64)
        ensures
            v == self@.num_objects,
    {
        self.num_objects
    }

    /// The cache's total number of gets.
    pub fn get_total_gets(&self) -> (v: u64)
        ensures
            v == self@.total_gets,
    {
        self.total_gets
    }

    /// The cache's total number of sets.
    pub fn get_total_sets(&self) -> (v: u64)
        ensures
            v == self@.total_sets,
    {
        self.total_sets
    }

    /// The cache's total number of dels.
    pub fn get_total_dels(&self) -> (v: u64)
        ensures
            v == self@.total_dels,
    {
        self.total_dels
    }

    /// The bits of the cache's miss ratio, an `f64`.
    pub fn get_miss_ratio_bits(&self) -> (v: u64)
        ensures
            v == self@.miss_ratio_bits,
    {
        self.miss_ratio_bits
    }

    /// The cache's configured eviction policies.
    pub fn get_policies(&self) -> (ps: &[PaperPolicy])
        ensures
            policy_views(ps@) == self@.policies,
    {
        self.policies.as_slice()
    }

    /// The cache's eviction policy.
    pub fn get_policy(&self) -> (p: &PaperPolicy)
        ensures
            p@ == self@.policy,
    {
        &self.policy
    }

    /// Whether the cache is configured to the `Auto` eviction policy.
    pub fn is_auto_policy(&self) -> (v: bool)
        ensures
            v == self@.is_auto_policy,
    {
        self.is_auto_policy
    }

    /// The cache's uptime.
    pub fn get_uptime(&self) -> (v: u64)
        ensures
            v == self@.uptime,
    {
        self.uptime
    }
}

/// The numbers at the start of a statistics report.
#[derive(Debug, Clone, Copy, PartialEq, Eq, Structural)]
pub struct StatsCounts {
    pub max_size: u64,
    pub used_size: u64,
    pub num_objects: u64,
    pub total_gets: u64,
    pub total_sets: u64,
    pub total_dels: u64,
    pub miss_ratio_bits: u64,
}

/// The numbers of a statistics report, seven `u64`s (56 bytes): the
/// maximum size, used size, object count, total gets, sets and dels, and the
/// bits of the miss ratio.
pub open spec fn take_stats_counts(b: Seq<u8>, p: int) -> Field<StatsCounts> {
    if p + 56 > b.len() {
        Field::Short
    } else {
        Field::Got(
            StatsCounts {
                max_size: u64_at(b, p),
                used_size: u64_at(b, p + 8),
                num_objects: u64_at(b, p + 16),
                total_gets: u64_at(b, p + 24),
                total_sets: u64_at(b, p + 32),
                total_dels: u64_at(b, p + 40),
                miss_ratio_bits: u64_at(b, p + 48),
            },
            p + 56,
        )
    }
}

/// The statistics report made of its parts; the report lists no
/// configured policies.
pub open spec fn stats_view_of(
    n: StatsCounts,
    policy: PolicyView,
    is_auto_policy: bool,
    uptime: u64,
) -> StatsView {
    StatsView {
        max_size: n.max_size,
        used_size: n.used_size,
        num_objects: n.num_objects,
        total_gets: n.total_gets,
        total_sets: n.total_sets,
        total_dels: n.total_dels,
        miss_ratio_bits: n.miss_ratio_bits,
        policies: Seq::empty(),
        policy,
        is_auto_policy,
        uptime,
    }
}

/// The body of a statistics response: its numbers; the policy's text;
/// whether the policy is automatic (boolean); the uptime (`u64`). The text
/// is read as a policy only after the uptime: a text that names no policy
/// makes the response invalid once all its fields are in.
pub open spec fn take_stats(b: Seq<u8>, p: int) -> Field<StatsView> {
    bind(take_stats_counts(b, p), |n: StatsCounts, p: int|
    bind(take_string(b, p), |text: Seq<char>, p: int|
    bind(take_bool(b, p), |is_auto_policy: bool, p: int|
    bind(take_u64(b, p), |uptime: u64, p: int|
        match spec_parse_policy(text) {
            Some(policy) => Field::Got(stats_view_of(n, policy, is_auto_policy, uptime), p),
            None => Field::Bad(p),
        }
    ))))
}

pub proof fn lemma_stats_counts_stable(b: Seq<u8>, e: Seq<u8>, p: int)
    requires
        0 <= p,
    ensures
        stable(take_stats_counts(b, p), take_stats_counts(b + e, p), p, b.len() as int),
{
    if p + 56 <= b.len() {
        assert forall|k: int| p <= k <= p + 48 implies u64_at(b + e, k) == u64_at(b, k) by {
            assert((b + e).subrange(k, k + 8) =~= b.subrange(k, k + 8));
        }
    }
}

pub proof fn lemma_stats_stable(b: Seq<u8>, e: Seq<u8>, p: int)
    requires
        0 <= p,
    ensures
        stable(take_stats(b, p), take_stats(b + e, p), p, b.len() as int),
{
    lemma_stats_counts_stable(b, e, p);
    if let Field::Got(n, p1) = take_stats_counts(b, p) {
        lemma_string_stable(b, e, p1);
        if let Field::Got(text, p2) = take_string(b, p1) {
            lemma_bool_stable(b, e, p2);
            if let Field::Got(auto, p3) = take_bool(b, p2) {
                lemma_u64_stable(b, e, p3);
            }
        }
    }
}

/// The `u64`s of a statistics report's numbers, in the order the report
/// holds them.
pub open spec fn stats_values(n: StatsCounts) -> Seq<u64> {
    seq![
        n.max_size,
        n.used_size,
        n.num_objects,
        n.total_gets,
        n.total_sets,
        n.total_dels,
        n.miss_ratio_bits,
    ]
}

/// The numbers of a statistics report read back as the numbers written.
pub proof fn law_stats_counts_roundtrip(n: StatsCounts, before: Seq<u8>, rest: Seq<u8>)
    ensures
        u64s_bytes(stats_values(n)).len() == 56,
        take_stats_counts(before + u64s_bytes(stats_values(n)) + rest, before.len() as int)
            == Field::Got(n, before.len() + 56int),
{
    let vs = stats_values(n);
    let b = before + u64s_bytes(vs) + rest;
    let p = before.len() as int;
    lemma_u64s_bytes(vs);
    assert forall|i: int| 0 <= i < 7 implies u64_at(b, p + 8 * i) == #[trigger] vs[i] by {
        law_u64s_roundtrip(vs, before, rest, i);
    }
    assert(u64_at(b, p) == vs[0]);
    assert(u64_at(b, p + 8) == vs[1]);
    assert(u64_at(b, p + 16) == vs[2]);
    assert(u64_at(b, p + 24) == vs[3]);
    assert(u64_at(b, p + 32) == vs[4]);
    assert(u64_at(b, p + 40) == vs[5]);
    assert(u64_at(b, p + 48) == vs[6]);
}

/// The bytes of a statistics report's body, as the server writes them: the
/// numbers, the policy's text, whether the policy is automatic, the uptime.
pub open spec fn stats_body(n: StatsCounts, policy: PolicyView, is_auto_policy: bool, uptime: u64) -> Seq<u8> {
    u64s_bytes(stats_values(n)) + str_field(policy_text(policy)) + seq![bool_byte(is_auto_policy)]
        + u64_le(uptime)
}

/// A statistics body whose fields each read as given reads as the report
/// made of them.
proof fn lemma_stats_of_fields(
    b: Seq<u8>,
    p0: int,
    n: StatsCounts,
    text: Seq<char>,
    policy: PolicyView,
    auto: bool,
    uptime: u64,
    p1: int,
    p2: int,
    p3: int,
    p4: int,
)
    requires
        take_stats_counts(b, p0) == Field::Got(n, p1),
        take_string(b, p1) == Field::Got(text, p2),
        take_bool(b, p2) == Field::Got(auto, p3),
        take_u64(b, p3) == Field::Got(uptime, p4),
        spec_parse_policy(text) == Some(policy),
    ensures
        take_stats(b, p0) == Field::Got(stats_view_of(n, policy, auto, uptime), p4),
{
}

/// The numbers of a statistics body read back.
proof fn lemma_stats_head(n: StatsCounts, policy: PolicyView, auto: bool, uptime: u64, before: Seq<u8>, rest: Seq<u8>)
    ensures
        ({
            let c = u64s_bytes(stats_values(n));
            let t = str_field(policy_text(policy));
            let b = before + (c + t + seq![bool_byte(auto)] + u64_le(uptime)) + rest;
            &&& c.len() == 56
            &&& take_stats_counts(b, before.len() as int) == Field::Got(n, before.len() + 56int)
        }),
{
    let c = u64s_bytes(stats_values(n));
    let t = str_field(policy_text(policy));
    let a = seq![bool_byte(auto)];
    let u = u64_le(uptime);
    lemma_four_parts(before, c, t, a, u, rest);
    law_stats_counts_roundtrip(n, before, t + a + u + rest);
}

/// The policy text of a statistics body reads back, and names the policy.
proof fn lemma_stats_policy(n: StatsCounts, policy: PolicyView, auto: bool, uptime: u64, before: Seq<u8>, rest: Seq<u8>)
    requires
        policy_sendable(policy),
    ensures
        ({
            let c = u64s_bytes(stats_values(n));
            let t = str_field(policy_text(policy));
            let b = before + (c + t + seq![bool_byte(auto)] + u64_le(uptime)) + rest;
            let p1 = (before.len() + c.len()) as int;
            &&& take_string(b, p1) == Field::Got(policy_text(policy), p1 + t.len())
            &&& spec_parse_policy(policy_text(policy)) == Some(policy)
        }),
{
    let c = u64s_bytes(stats_values(n));
    let t = str_field(policy_text(policy));
    let a = seq![bool_byte(auto)];
    let u = u64_le(uptime);
    lemma_four_parts(before, c, t, a, u, rest);
    law_str_field_roundtrip(policy_text(policy), (before + c).len() as int, a + u + rest, before + c);
    law_policy_text_roundtrip(policy);
}

/// The auto flag and the uptime of a statistics body read back.
proof fn lemma_stats_tail(n: StatsCounts, policy: PolicyView, auto: bool, uptime: u64, before: Seq<u8>, rest: Seq<u8>)
    ensures
        ({
            let c = u64s_bytes(stats_values(n));
            let t = str_field(policy_text(policy));
            let b = before + (c + t + seq![bool_byte(auto)] + u64_le(uptime)) + rest;
            let p2 = (before.len() + c.len() + t.len()) as int;
            &&& take_bool(b, p2) == Field::Got(auto, p2 + 1)
            &&& take_u64(b, p2 + 1) == Field::Got(uptime, p2 + 9)
            &&& u64_le(uptime).len() == 8
        }),
{
    let c = u64s_bytes(stats_values(n));
    let t = str_field(policy_text(policy));
    let a = seq![bool_byte(auto)];
    let u = u64_le(uptime);
    lemma_four_parts(before, c, t, a, u, rest);
    lemma_u64_le_roundtrip(uptime);
    let q = before + c + t;
    lemma_middle_subrange(q, a, u + rest, 0, 1);
    assert((q + a + (u + rest))[q.len() as int] == (q + a + (u + rest)).subrange(q.len() as int, q.len() + 1int)[0]);
    law_u64_field_roundtrip(uptime, q + a, rest);
}

/// A statistics report reads back as the report written, every field of
/// it: the numbers, the policy, whether it is automatic, and the uptime.
pub proof fn law_stats_roundtrip(
    n: StatsCounts,
    policy: PolicyView,
    is_auto_policy: bool,
    uptime: u64,
    before: Seq<u8>,
    rest: Seq<u8>,
)
    requires
        policy_sendable(policy),
    ensures
        take_stats(before + stats_body(n, policy, is_auto_policy, uptime) + rest, before.len() as int)
            == Field::Got(
            StatsView {
                max_size: n.max_size,
                used_size: n.used_size,
                num_objects: n.num_objects,
                total_gets: n.total_gets,
                total_sets: n.total_sets,
                total_dels: n.total_dels,
                miss_ratio_bits: n.miss_ratio_bits,
                policies: Seq::empty(),
                policy,
                is_auto_policy,
                uptime,
            },
            (before.len() + stats_body(n, policy, is_auto_policy, uptime).len()) as int,
        ),
{
    let c = u64s_bytes(stats_values(n));
    let t = str_field(policy_text(policy));
    let b = before + stats_body(n, policy, is_auto_policy, uptime) + rest;
    lemma_stats_head(n, policy, is_auto_policy, uptime, before, rest);
    lemma_stats_policy(n, policy, is_auto_policy, uptime, before, rest);
    lemma_stats_tail(n, policy, is_auto_policy, uptime, before, rest);
    let p1 = before.len() + 56int;
    let p2 = p1 + t.len();
    lemma_stats_of_fields(
        b,
        before.len() as int,
        n,
        policy_text(policy),
        policy,
        is_auto_policy,
        uptime,
        p1,
        p2,
        p2 + 1,
        p2 + 9,
    );
}

/// Reads the numbers of a statistics report.
pub fn read_stats_counts(c: &mut Cursor) -> (r: Result<StatsCounts, ReadFailure>)
    requires
        old(c).pos <= old(c).buf@.len(),
    ensures
        final(c).buf == old(c).buf,
        old(c).pos <= final(c).pos <= final(c).buf@.len(),
        read_as(take_stats_counts(old(c).buf@, old(c).pos as int), r, |x: StatsCounts| x, old(c).pos, final(c).pos),
{
    let start = c.pos;
    if c.buf.len() - start < 56 {
        return Err(ReadFailure::Truncated);
    }
    let max_size = match c.read_u64() {
        Ok(v) => v,
        Err(f) => return abandon(c, start, f),
    };
    let used_size = match c.read_u64() {
        Ok(v) => v,
        Err(f) => return abandon(c, start, f),
    };
    let num_objects = match c.read_u64() {
        Ok(v) => v,
        Err(f) => return abandon(c, start, f),
    };
    let total_gets = match c.read_u64() {
        Ok(v) => v,
        Err(f) => return abandon(c, start, f),
    };
    let total_sets = match c.read_u64() {
        Ok(v) => v,
        Err(f) => return abandon(c, start, f),
    };
    let total_dels = match c.read_u64() {
        Ok(v) => v,
        Err(f) => return abandon(c, start, f),
    };
    let miss_ratio_bits = match c.read_u64() {
        Ok(v) => v,
        Err(f) => return abandon(c, start, f),
    };
    Ok(StatsCounts {
        max_size,
        used_size,
        num_objects,
        total_gets,
        total_sets,
        total_dels,
        miss_ratio_bits,
    })
}

/// Reads the body of a statistics response.
pub fn read_stats(c: &mut Cursor) -> (r: Result<Stats, ReadFailure>)
    requires
        old(c).pos <= old(c).buf@.len(),
    ensures
        final(c).buf == old(c).buf,
        old(c).pos <= final(c).pos <= final(c).buf@.len(),
        read_as(take_stats(old(c).buf@, old(c).pos as int), r, |x: Stats| x@, old(c).pos, final(c).pos),
{
    let start = c.pos;
    let n = match read_stats_counts(c) {
        Ok(v) => v,
        Err(f) => return abandon(c, start, f),
    };
    let text = match c.read_string() {
        Ok(v) => v,
        Err(f) => return abandon(c, start, f),
    };
    let is_auto_policy = match c.read_bool() {
        Ok(v) => v,
        Err(f) => return abandon(c, start, f),
    };
    let uptime = match c.read_u64() {
        Ok(v) => v,
        Err(f) => return abandon(c, start, f),
    };
    let policy = match PaperPolicy::from_text(text.as_str()) {
        Ok(p) => p,
        Err(_) => return Err(ReadFailure::Malformed),
    };
    let policies: Vec<PaperPolicy> = Vec::new();
    assert(policy_views(policies@) =~= Seq::<PolicyView>::empty());
    Ok(Stats::new(
        n.max_size,
        n.used_size,
        n.num_objects,
        n.total_gets,
        n.total_sets,
        n.total_dels,
        n.miss_ratio_bits,
        policies,
        policy,
        is_auto_policy,
        uptime,
    ))
}

} // verus!
