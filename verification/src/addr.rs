//! Server addresses of the form `paper://host:port`.
use vstd::prelude::*;

use crate::error::{PaperClientError, PaperClientResult};
use crate::text::{chars_of, push_char};

verus! {

/// The scheme that every server address starts with.
pub open spec fn paper_scheme() -> Seq<char> {
    seq!['p', 'a', 'p', 'e', 'r', ':', '/', '/']
}

/// `s` begins with `p`.
pub open spec fn has_prefix(s: Seq<char>, p: Seq<char>) -> bool {
    p.len() <= s.len() && s.take(p.len() as int) == p
}

/// `s` with every occurrence of the non-empty `p` removed, scanning from the
/// left and never letting two removed occurrences overlap.
pub open spec fn remove_all(s: Seq<char>, p: Seq<char>) -> Seq<char>
    decreases s.len(),
{
    if p.len() == 0 || s.len() == 0 {
        s
    } else if has_prefix(s, p) {
        remove_all(s.skip(p.len() as int), p)
    } else {
        seq![s[0]] + remove_all(s.skip(1), p)
    }
}

/// What `to_addr` gives for an address text.
pub open spec fn spec_to_addr(text: Seq<char>) -> Result<Seq<char>, PaperClientError> {
    if has_prefix(text, paper_scheme()) {
        Ok(remove_all(text, paper_scheme()))
    } else {
        Err(PaperClientError::InvalidAddress)
    }
}

/// Whether the scheme occurs in `v` at position `i`.
fn scheme_at(v: &Vec<char>, i: usize) -> (b: bool)
    requires
        i <= v@.len(),
    ensures
        b == has_prefix(v@.skip(i as int), paper_scheme()),
{
    if v.len() - i < 8 {
        return false;
    }
    let b = v[i] == 'p' && v[i + 1] == 'a' && v[i + 2] == 'p' && v[i + 3] == 'e' && v[i + 4] == 'r'
        && v[i + 5] == ':' && v[i + 6] == '/' && v[i + 7] == '/';
    assert(b == (v@.skip(i as int).take(8) =~= paper_scheme()));
    b
}

/// Turns an address `paper://host:port` into the `host:port` to connect to.
/// Fails with `InvalidAddress` unless the text starts with `paper://`;
/// every occurrence of `paper://` is removed, as `str::replace` does.
fn host_port_of(text: &str) -> (r: PaperClientResult<String>)
    ensures
        r is Ok <==> spec_to_addr(text@) is Ok,
        r matches Ok(s) ==> spec_to_addr(text@) == Ok::<Seq<char>, PaperClientError>(s@),
        r matches Err(e) ==> spec_to_addr(text@) == Err::<Seq<char>, PaperClientError>(e),
{
    let v = chars_of(text);
    assert(v@.skip(0) =~= v@);
    if !scheme_at(&v, 0) {
        return Err(PaperClientError::InvalidAddress);
    }
    let mut out = String::new();
    let mut i: usize = 0;
    while i < v.len()
        invariant
            i <= v@.len(),
            remove_all(v@, paper_scheme()) == out@ + remove_all(v@.skip(i as int), paper_scheme()),
        decreases v@.len() - i,
    {
        let ghost rest = v@.skip(i as int);
        if scheme_at(&v, i) {
            assert(rest.skip(8) =~= v@.skip(i + 8));
            i = i + 8;
        } else {
            assert(rest.skip(1) =~= v@.skip(i + 1));
            let ghost before = out@;
            push_char(&mut out, v[i]);
            assert(before + remove_all(rest, paper_scheme()) =~= out@ + remove_all(
                v@.skip(i + 1),
                paper_scheme(),
            ));
            i = i + 1;
        }
    }
    assert(v@.skip(i as int) =~= Seq::<char>::empty());
    Ok(out)
}

/// `p` occurs nowhere in `s`.
pub open spec fn occurs_nowhere(s: Seq<char>, p: Seq<char>) -> bool {
    forall|i: int| 0 <= i < s.len() ==> !has_prefix(#[trigger] s.skip(i), p)
}

proof fn lemma_remove_absent(s: Seq<char>, p: Seq<char>)
    requires
        occurs_nowhere(s, p),
    ensures
        remove_all(s, p) == s,
    decreases s.len(),
{
    if p.len() != 0 && s.len() != 0 {
        assert(s.skip(0) =~= s);
        let t = s.skip(1);
        assert forall|i: int| 0 <= i < t.len() implies !has_prefix(#[trigger] t.skip(i), p) by {
            assert(t.skip(i) =~= s.skip(i + 1));
        }
        lemma_remove_absent(t, p);
        assert(seq![s[0]] + t =~= s);
    }
}

/// The address `paper://` followed by `rest` connects to `rest` with every
/// further `paper://` removed; when `rest` holds no `paper://`, to `rest`
/// itself, as in `paper://127.0.0.1:3145` to `127.0.0.1:3145`.
pub proof fn law_addr_strips_scheme(rest: Seq<char>)
    ensures
        spec_to_addr(paper_scheme() + rest) == Ok::<Seq<char>, PaperClientError>(
            remove_all(rest, paper_scheme()),
        ),
        occurs_nowhere(rest, paper_scheme()) ==> spec_to_addr(paper_scheme() + rest) == Ok::<
            Seq<char>,
            PaperClientError,
        >(rest),
{
    let t = paper_scheme() + rest;
    assert(t.take(8) =~= paper_scheme());
    assert(t.skip(8) =~= rest);
    if occurs_nowhere(rest, paper_scheme()) {
        lemma_remove_absent(rest, paper_scheme());
    }
}

/// Anything that names a PaperCache server by its address.
pub trait FromPaperAddr: Clone {
    /// The address text.
    spec fn addr_text(&self) -> Seq<char>;

    /// The `host:port` to connect to; `InvalidAddress` unless the address
    /// starts with `paper://`.
    fn to_addr(&self) -> (r: PaperClientResult<String>)
        ensures
            r is Ok <==> spec_to_addr(self.addr_text()) is Ok,
            r matches Ok(s) ==> spec_to_addr(self.addr_text()) == Ok::<
                Seq<char>,
                PaperClientError,
            >(s@),
            r matches Err(e) ==> spec_to_addr(self.addr_text()) == Err::<
                Seq<char>,
                PaperClientError,
            >(e),
    ;
}

impl<'a> FromPaperAddr for &'a str {
    open spec fn addr_text(&self) -> Seq<char> {
        (**self)@
    }

    fn to_addr(&self) -> (r: PaperClientResult<String>) {
        host_port_of(*self)
    }
}

impl FromPaperAddr for String {
    open spec fn addr_text(&self) -> Seq<char> {
        self@
    }

    fn to_addr(&self) -> (r: PaperClientResult<String>) {
        host_port_of(self.as_str())
    }
}

impl<'a> FromPaperAddr for &'a String {
    open spec fn addr_text(&self) -> Seq<char> {
        (**self)@
    }

    fn to_addr(&self) -> (r: PaperClientResult<String>) {
        host_port_of(self.as_str())
    }
}

} // verus!
