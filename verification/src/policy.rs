//! Eviction policies and their text form on the wire (`lfu`, `2q-0.25-0.5`, ...).
use vstd::prelude::*;

use crate::addr::has_prefix;
use crate::error::{PaperClientError, PaperClientResult};
use crate::number::{float_literal, is_float_literal};
use crate::text::{chars_of, push_char, string_from, string_of};
use vstd::string::StringExecFns;

verus! {

/// An eviction policy of the cache. The two parameters of the 2Q policy are
/// held as the text of the numbers that stands for them on the wire; every
/// policy that this library reads holds number texts there (see
/// `PolicyView::well_formed`).
#[derive(Debug, Clone, PartialEq, Eq)]
pub enum PaperPolicy {
    Auto,
    Lfu,
    Fifo,
    Clock,
    Lru,
    Mru,
    TwoQ(String, String),
}

/// The mathematical model of a policy.
pub enum PolicyView {
    Auto,
    Lfu,
    Fifo,
    Clock,
    Lru,
    Mru,
    TwoQ(Seq<char>, Seq<char>),
}

impl PolicyView {
    /// The 2Q parameters are texts of floating-point numbers.
    pub open spec fn well_formed(self) -> bool {
        match self {
            PolicyView::TwoQ(k_in, k_out) => float_literal(k_in) && float_literal(k_out),
            _ => true,
        }
    }
}

impl View for PaperPolicy {
    type V = PolicyView;

    open spec fn view(&self) -> PolicyView {
        match self {
            PaperPolicy::Auto => PolicyView::Auto,
            PaperPolicy::Lfu => PolicyView::Lfu,
            PaperPolicy::Fifo => PolicyView::Fifo,
            PaperPolicy::Clock => PolicyView::Clock,
            PaperPolicy::Lru => PolicyView::Lru,
            PaperPolicy::Mru => PolicyView::Mru,
            PaperPolicy::TwoQ(k_in, k_out) => PolicyView::TwoQ(k_in@, k_out@),
        }
    }
}

pub open spec fn auto_word() -> Seq<char> {
    seq!['a', 'u', 't', 'o']
}

pub open spec fn lfu_word() -> Seq<char> {
    seq!['l', 'f', 'u']
}

pub open spec fn fifo_word() -> Seq<char> {
    seq!['f', 'i', 'f', 'o']
}

pub open spec fn clock_word() -> Seq<char> {
    seq!['c', 'l', 'o', 'c', 'k']
}

pub open spec fn lru_word() -> Seq<char> {
    seq!['l', 'r', 'u']
}

pub open spec fn mru_word() -> Seq<char> {
    seq!['m', 'r', 'u']
}

/// The prefix of a 2Q policy's text.
pub open spec fn two_q_prefix() -> Seq<char> {
    seq!['2', 'q', '-']
}

/// The text of a policy: its name, or `2q-{k_in}-{k_out}`.
pub open spec fn policy_text(p: PolicyView) -> Seq<char> {
    match p {
        PolicyView::Auto => auto_word(),
        PolicyView::Lfu => lfu_word(),
        PolicyView::Fifo => fifo_word(),
        PolicyView::Clock => clock_word(),
        PolicyView::Lru => lru_word(),
        PolicyView::Mru => mru_word(),
        PolicyView::TwoQ(k_in, k_out) => two_q_prefix() + k_in + seq!['-'] + k_out,
    }
}

/// `i` is the one position of `-` in `rest`.
pub open spec fn only_dash_at(rest: Seq<char>, i: int) -> bool {
    &&& 0 <= i < rest.len()
    &&& rest[i] == '-'
    &&& forall|j: int| 0 <= j < rest.len() && j != i ==> rest[j] != '-'
}

/// The two 2Q parameters in the text after `2q-`: the text must split at
/// `-` into exactly two pieces, each the text of a floating-point number.
pub open spec fn two_q_params(rest: Seq<char>) -> Option<PolicyView> {
    if exists|i: int| only_dash_at(rest, i) {
        let i = choose|i: int| only_dash_at(rest, i);
        if float_literal(rest.take(i)) && float_literal(rest.skip(i + 1)) {
            Some(PolicyView::TwoQ(rest.take(i), rest.skip(i + 1)))
        } else {
            None
        }
    } else {
        None
    }
}

/// The policy a text names, if any.
pub open spec fn spec_parse_policy(t: Seq<char>) -> Option<PolicyView> {
    if t == auto_word() {
        Some(PolicyView::Auto)
    } else if t == lfu_word() {
        Some(PolicyView::Lfu)
    } else if t == fifo_word() {
        Some(PolicyView::Fifo)
    } else if t == clock_word() {
        Some(PolicyView::Clock)
    } else if t == lru_word() {
        Some(PolicyView::Lru)
    } else if t == mru_word() {
        Some(PolicyView::Mru)
    } else if has_prefix(t, two_q_prefix()) {
        two_q_params(t.skip(3))
    } else {
        None
    }
}

/// Whether `v` holds exactly the characters of `w`.
fn same_chars(v: &Vec<char>, w: &[char]) -> (b: bool)
    ensures
        b == (v@ == w@),
{
    if v.len() != w.len() {
        return false;
    }
    let mut i: usize = 0;
    while i < v.len()
        invariant
            v@.len() == w@.len(),
            i <= v@.len(),
            forall|j: int| 0 <= j < i ==> v@[j] == w@[j],
        decreases v@.len() - i,
    {
        if v[i] != w[i] {
            return false;
        }
        i = i + 1;
    }
    assert(v@ =~= w@);
    true
}

/// Splits the text after `2q-` (that is, `chars[3..]`) into the two 2Q
/// parameters; `Internal` unless it holds exactly one `-` and both pieces
/// are texts of floating-point numbers.
pub fn parse_two_q(chars: &Vec<char>) -> (r: PaperClientResult<PaperPolicy>)
    requires
        chars@.len() >= 3,
    ensures
        r is Ok <==> two_q_params(chars@.skip(3)) is Some,
        r matches Ok(p) ==> two_q_params(chars@.skip(3)) == Some(p@),
        r matches Err(e) ==> e == PaperClientError::Internal,
        r matches Ok(p) ==> p@.well_formed(),
{
    let ghost rest = chars@.skip(3);
    let mut dashes: usize = 0;
    let mut at: usize = 0;
    let mut i: usize = 3;
    while i < chars.len()
        invariant
            3 <= i <= chars@.len(),
            rest == chars@.skip(3),
            dashes <= 2,
            dashes == 0 ==> forall|j: int| 0 <= j < i - 3 ==> rest[j] != '-',
            dashes >= 1 ==> 3 <= at < i && chars@[at as int] == '-',
            dashes == 1 ==> forall|j: int| 0 <= j < i - 3 && j != at - 3 ==> rest[j] != '-',
            dashes == 2 ==> exists|j: int| 0 <= j < i - 3 && j != at - 3 && rest[j] == '-',
        decreases chars@.len() - i,
    {
        if chars[i] == '-' {
            if dashes == 0 {
                at = i;
                dashes = 1;
            } else {
                assert(rest[i - 3] == '-');
                dashes = 2;
            }
        }
        i = i + 1;
    }
    if dashes != 1 {
        if dashes == 2 {
            assert forall|k: int| !only_dash_at(rest, k) by {
                let j = choose|j: int| 0 <= j < rest.len() && j != at - 3 && rest[j] == '-';
                if only_dash_at(rest, k) {
                    assert(rest[at - 3] == '-');
                }
            }
        }
        return Err(PaperClientError::Internal);
    }
    assert(only_dash_at(rest, at - 3));
    assert forall|k: int| only_dash_at(rest, k) implies k == at - 3 by {}
    assert(rest.take(at - 3) =~= chars@.subrange(3, at as int));
    assert(rest.skip(at - 3 + 1) =~= chars@.subrange(at + 1, chars@.len() as int));
    if !is_float_literal(chars, 3, at) || !is_float_literal(chars, at + 1, chars.len()) {
        return Err(PaperClientError::Internal);
    }
    let k_in = string_of(chars, 3, at);
    let k_out = string_of(chars, at + 1, chars.len());
    assert(k_in@ =~= rest.take(at - 3));
    assert(k_out@ =~= rest.skip(at - 3 + 1));
    Ok(PaperPolicy::TwoQ(k_in, k_out))
}

impl PaperPolicy {
    /// The policy's text, as the server reads it.
    pub fn to_string(&self) -> (s: String)
        ensures
            s@ == policy_text(self@),
    {
        match self {
            PaperPolicy::Auto => string_from(&['a', 'u', 't', 'o']),
            PaperPolicy::Lfu => string_from(&['l', 'f', 'u']),
            PaperPolicy::Fifo => string_from(&['f', 'i', 'f', 'o']),
            PaperPolicy::Clock => string_from(&['c', 'l', 'o', 'c', 'k']),
            PaperPolicy::Lru => string_from(&['l', 'r', 'u']),
            PaperPolicy::Mru => string_from(&['m', 'r', 'u']),
            PaperPolicy::TwoQ(k_in, k_out) => {
                let mut s = string_from(&['2', 'q', '-']);
                s.append(k_in.as_str());
                push_char(&mut s, '-');
                s.append(k_out.as_str());
                s
            },
        }
    }

    /// Reads a policy from its text; `Internal` for a text that names no
    /// policy.
    pub fn from_text(value: &str) -> (r: PaperClientResult<PaperPolicy>)
        ensures
            r is Ok <==> spec_parse_policy(value@) is Some,
            r matches Ok(p) ==> spec_parse_policy(value@) == Some(p@),
            r matches Err(e) ==> e == PaperClientError::Internal,
            r matches Ok(p) ==> p@.well_formed(),
    {
        let v = chars_of(value);
        if same_chars(&v, &['a', 'u', 't', 'o']) {
            Ok(PaperPolicy::Auto)
        } else if same_chars(&v, &['l', 'f', 'u']) {
            Ok(PaperPolicy::Lfu)
        } else if same_chars(&v, &['f', 'i', 'f', 'o']) {
            Ok(PaperPolicy::Fifo)
        } else if same_chars(&v, &['c', 'l', 'o', 'c', 'k']) {
            Ok(PaperPolicy::Clock)
        } else if same_chars(&v, &['l', 'r', 'u']) {
            Ok(PaperPolicy::Lru)
        } else if same_chars(&v, &['m', 'r', 'u']) {
            Ok(PaperPolicy::Mru)
        } else if v.len() >= 3 && v[0] == '2' && v[1] == 'q' && v[2] == '-' {
            assert(v@.take(3) =~= two_q_prefix());
            parse_two_q(&v)
        } else {
            assert(!has_prefix(v@, two_q_prefix()));
            Err(PaperClientError::Internal)
        }
    }
}

/// `t` holds no `-`.
pub open spec fn dash_free(t: Seq<char>) -> bool {
    forall|j: int| 0 <= j < t.len() ==> t[j] != '-'
}

/// Reading back the text of a policy gives that policy, provided its 2Q
/// parameters are texts of numbers and neither holds a `-`.
pub proof fn law_policy_text_roundtrip(p: PolicyView)
    requires
        p.well_formed(),
        p matches PolicyView::TwoQ(k_in, k_out) ==> dash_free(k_in) && dash_free(k_out),
    ensures
        spec_parse_policy(policy_text(p)) == Some(p),
{
    let t = policy_text(p);
    match p {
        PolicyView::TwoQ(k_in, k_out) => {
            assert(t[0] == '2');
            assert(t != auto_word() && t != lfu_word() && t != fifo_word());
            assert(t != clock_word() && t != lru_word() && t != mru_word());
            assert(t.take(3) =~= two_q_prefix());
            let rest = t.skip(3);
            assert(rest =~= k_in + seq!['-'] + k_out);
            let i = k_in.len() as int;
            assert(only_dash_at(rest, i));
            assert forall|k: int| only_dash_at(rest, k) implies k == i by {}
            assert(rest.take(i) =~= k_in);
            assert(rest.skip(i + 1) =~= k_out);
        },
        _ => {
            assert(t.len() < 3 || t[0] != '2');
        },
    }
}

impl std::str::FromStr for PaperPolicy {
    type Err = PaperClientError;

    fn from_str(value: &str) -> (r: Result<Self, Self::Err>)
        ensures
            r is Ok <==> spec_parse_policy(value@) is Some,
            r matches Ok(p) ==> spec_parse_policy(value@) == Some(p@),
            r matches Err(e) ==> e == PaperClientError::Internal,
            r matches Ok(p) ==> p@.well_formed(),
    {
        PaperPolicy::from_text(value)
    }
}

} // verus!
