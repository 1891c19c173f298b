//! The text of a floating-point number, as Rust's `f64` parser accepts it:
//! an optional sign, then `inf`, `infinity` or `nan` in any case, or digits
//! with at most one `.` and an optional exponent (`e` or `E`, an optional
//! sign, digits). No whitespace is allowed.
use vstd::prelude::*;

verus! {

pub open spec fn is_digit(c: char) -> bool {
    '0' <= c && c <= '9'
}

pub open spec fn is_sign(c: char) -> bool {
    c == '+' || c == '-'
}

pub open spec fn is_exp_mark(c: char) -> bool {
    c == 'e' || c == 'E'
}

/// `s` is the word `lower` with each letter in either case (`upper` is the
/// same word in capitals).
pub open spec fn spells(s: Seq<char>, lower: Seq<char>, upper: Seq<char>) -> bool {
    &&& s.len() == lower.len()
    &&& forall|j: int| 0 <= j < s.len() ==> s[j] == lower[j] || s[j] == upper[j]
}

/// `inf`, `infinity` or `nan`, in any case.
pub open spec fn special_value(s: Seq<char>) -> bool {
    ||| spells(s, seq!['i', 'n', 'f'], seq!['I', 'N', 'F'])
    ||| spells(
        s,
        seq!['i', 'n', 'f', 'i', 'n', 'i', 't', 'y'],
        seq!['I', 'N', 'F', 'I', 'N', 'I', 'T', 'Y'],
    )
    ||| spells(s, seq!['n', 'a', 'n'], seq!['N', 'A', 'N'])
}

/// One or more digits.
pub open spec fn all_digits(s: Seq<char>) -> bool {
    &&& s.len() > 0
    &&& forall|j: int| 0 <= j < s.len() ==> is_digit(s[j])
}

/// Digits with at most one `.` among them, and at least one digit.
pub open spec fn mantissa(m: Seq<char>) -> bool {
    &&& forall|j: int| 0 <= j < m.len() ==> is_digit(m[j]) || m[j] == '.'
    &&& forall|i: int, j: int| 0 <= i < m.len() && 0 <= j < m.len() && m[i] == '.' && m[j] == '.' ==> i == j
    &&& exists|j: int| 0 <= j < m.len() && is_digit(m[j])
}

/// The part after `e`: an optional sign, then one or more digits.
pub open spec fn exponent(x: Seq<char>) -> bool {
    if x.len() > 0 && is_sign(x[0]) {
        all_digits(x.skip(1))
    } else {
        all_digits(x)
    }
}

/// A mantissa, with or without an exponent.
pub open spec fn decimal(s: Seq<char>) -> bool {
    ||| mantissa(s)
    ||| exists|k: int|
        #![trigger mantissa(s.take(k))]
        0 <= k < s.len() && is_exp_mark(s[k]) && mantissa(s.take(k)) && exponent(s.skip(k + 1))
}

pub open spec fn unsigned_float(s: Seq<char>) -> bool {
    special_value(s) || decimal(s)
}

/// The text of a floating-point number: an optional sign, then a special
/// value or a decimal.
pub open spec fn float_literal(t: Seq<char>) -> bool {
    if t.len() > 0 && is_sign(t[0]) {
        unsigned_float(t.skip(1))
    } else {
        unsigned_float(t)
    }
}

/// Whether `chars[lo..hi]` is `lower` with each letter in either case.
fn spells_at(chars: &Vec<char>, lo: usize, hi: usize, lower: &[char], upper: &[char]) -> (b: bool)
    requires
        lo <= hi <= chars@.len(),
        lower@.len() == upper@.len(),
    ensures
        b == spells(chars@.subrange(lo as int, hi as int), lower@, upper@),
{
    let ghost s = chars@.subrange(lo as int, hi as int);
    if hi - lo != lower.len() {
        return false;
    }
    let mut i: usize = 0;
    while i < lower.len()
        invariant
            lo <= hi <= chars@.len(),
            hi - lo == lower@.len() == upper@.len(),
            s == chars@.subrange(lo as int, hi as int),
            i <= lower@.len(),
            forall|j: int| 0 <= j < i ==> s[j] == lower@[j] || s[j] == upper@[j],
        decreases lower@.len() - i,
    {
        let c = chars[lo + i];
        assert(s[i as int] == c);
        if c != lower[i] && c != upper[i] {
            return false;
        }
        i = i + 1;
    }
    true
}

/// Whether `chars[lo..hi]` is `inf`, `infinity` or `nan`, in any case.
fn special_at(chars: &Vec<char>, lo: usize, hi: usize) -> (b: bool)
    requires
        lo <= hi <= chars@.len(),
    ensures
        b == special_value(chars@.subrange(lo as int, hi as int)),
{
    spells_at(chars, lo, hi, &['i', 'n', 'f'], &['I', 'N', 'F'])
        || spells_at(
        chars,
        lo,
        hi,
        &['i', 'n', 'f', 'i', 'n', 'i', 't', 'y'],
        &['I', 'N', 'F', 'I', 'N', 'I', 'T', 'Y'],
    ) || spells_at(chars, lo, hi, &['n', 'a', 'n'], &['N', 'A', 'N'])
}

/// Whether `chars[lo..hi]` is one or more digits.
fn digits_at(chars: &Vec<char>, lo: usize, hi: usize) -> (b: bool)
    requires
        lo <= hi <= chars@.len(),
    ensures
        b == all_digits(chars@.subrange(lo as int, hi as int)),
{
    let ghost s = chars@.subrange(lo as int, hi as int);
    if lo == hi {
        return false;
    }
    let mut i = lo;
    while i < hi
        invariant
            lo <= i <= hi <= chars@.len(),
            s == chars@.subrange(lo as int, hi as int),
            forall|j: int| 0 <= j < i - lo ==> is_digit(s[j]),
        decreases hi - i,
    {
        let c = chars[i];
        assert(s[i - lo] == c);
        if !('0' <= c && c <= '9') {
            return false;
        }
        i = i + 1;
    }
    true
}

/// Whether `chars[lo..hi]` is a mantissa.
fn mantissa_at(chars: &Vec<char>, lo: usize, hi: usize) -> (b: bool)
    requires
        lo <= hi <= chars@.len(),
    ensures
        b == mantissa(chars@.subrange(lo as int, hi as int)),
{
    let ghost m = chars@.subrange(lo as int, hi as int);
    let mut seen_digit = false;
    let mut dot: Option<usize> = None;
    let mut i = lo;
    while i < hi
        invariant
            lo <= i <= hi <= chars@.len(),
            m == chars@.subrange(lo as int, hi as int),
            forall|j: int| 0 <= j < i - lo ==> is_digit(m[j]) || m[j] == '.',
            seen_digit <==> exists|j: int| 0 <= j < i - lo && is_digit(m[j]),
            match dot {
                None => forall|j: int| 0 <= j < i - lo ==> m[j] != '.',
                Some(d) => lo <= d < i && m[d - lo] == '.' && forall|j: int|
                    0 <= j < i - lo && j != d - lo ==> m[j] != '.',
            },
        decreases hi - i,
    {
        let c = chars[i];
        assert(m[i - lo] == c);
        if '0' <= c && c <= '9' {
            seen_digit = true;
        } else if c == '.' {
            if dot.is_some() {
                return false;
            }
            dot = Some(i);
        } else {
            return false;
        }
        i = i + 1;
    }
    seen_digit
}

/// Whether `chars[lo..hi]` is an exponent's digits with an optional sign.
fn exponent_at(chars: &Vec<char>, lo: usize, hi: usize) -> (b: bool)
    requires
        lo <= hi <= chars@.len(),
    ensures
        b == exponent(chars@.subrange(lo as int, hi as int)),
{
    if lo < hi && (chars[lo] == '+' || chars[lo] == '-') {
        assert(chars@.subrange(lo as int, hi as int).skip(1) =~= chars@.subrange(lo + 1, hi as int));
        digits_at(chars, lo + 1, hi)
    } else {
        digits_at(chars, lo, hi)
    }
}

/// Whether `chars[lo..hi]` is a decimal.
fn decimal_at(chars: &Vec<char>, lo: usize, hi: usize) -> (b: bool)
    requires
        lo <= hi <= chars@.len(),
    ensures
        b == decimal(chars@.subrange(lo as int, hi as int)),
{
    let ghost s = chars@.subrange(lo as int, hi as int);
    let mut k = lo;
    while k < hi && !(chars[k] == 'e' || chars[k] == 'E')
        invariant
            lo <= k <= hi <= chars@.len(),
            s == chars@.subrange(lo as int, hi as int),
            forall|j: int| 0 <= j < k - lo ==> !is_exp_mark(s[j]),
        decreases hi - k,
    {
        assert(s[k - lo] == chars@[k as int]);
        k = k + 1;
    }
    if k == hi {
        mantissa_at(chars, lo, hi)
    } else {
        let ghost e = (k - lo) as int;
        assert(s[e] == chars@[k as int]);
        assert(s.take(e) =~= chars@.subrange(lo as int, k as int));
        assert(s.skip(e + 1) =~= chars@.subrange(k + 1, hi as int));
        assert forall|kk: int|
            #![trigger mantissa(s.take(kk))]
            0 <= kk < s.len() && is_exp_mark(s[kk]) && mantissa(s.take(kk)) implies kk == e by {
            if kk > e {
                assert(s.take(kk)[e] == s[e]);
            }
        }
        let mk = mantissa_at(chars, lo, k);
        if mk {
            exponent_at(chars, k + 1, hi)
        } else {
            false
        }
    }
}

/// Whether `chars[lo..hi]` is the text of a floating-point number.
pub fn is_float_literal(chars: &Vec<char>, lo: usize, hi: usize) -> (b: bool)
    requires
        lo <= hi <= chars@.len(),
    ensures
        b == float_literal(chars@.subrange(lo as int, hi as int)),
{
    if lo < hi && (chars[lo] == '+' || chars[lo] == '-') {
        assert(chars@.subrange(lo as int, hi as int).skip(1) =~= chars@.subrange(lo + 1, hi as int));
        special_at(chars, lo + 1, hi) || decimal_at(chars, lo + 1, hi)
    } else {
        special_at(chars, lo, hi) || decimal_at(chars, lo, hi)
    }
}

} // verus!
