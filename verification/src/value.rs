//! Values stored in and returned by the cache: plain byte strings.
use vstd::prelude::*;
use vstd::slice::slice_to_vec;
use vstd::utf8::{decode_utf8, encode_utf8, valid_utf8};

use crate::text::string_from;
use vstd::string::StringExecFns;

use std::str::Utf8Error;
use std::string::FromUtf8Error;

verus! {

#[verifier::external_type_specification]
#[verifier::external_body]
pub struct ExUtf8Error(Utf8Error);

#[verifier::external_type_specification]
#[verifier::external_body]
pub struct ExFromUtf8Error(FromUtf8Error);

/// `std::str::from_utf8`: succeeds exactly on valid UTF-8, with the text
/// those bytes encode.
#[verifier::external_body]
fn str_from_utf8(bytes: &[u8]) -> (r: Result<&str, Utf8Error>)
    ensures
        r is Ok <==> valid_utf8(bytes@),
        r matches Ok(s) ==> s@ == decode_utf8(bytes@),
{
    std::str::from_utf8(bytes)
}

/// `String::from_utf8`: succeeds exactly on valid UTF-8, with the text those
/// bytes encode.
#[verifier::external_body]
fn string_from_utf8(bytes: Vec<u8>) -> (r: Result<String, FromUtf8Error>)
    ensures
        r is Ok <==> valid_utf8(bytes@),
        r matches Ok(s) ==> s@ == decode_utf8(bytes@),
{
    String::from_utf8(bytes)
}

/// `Vec::into_boxed_slice`: the same bytes in a boxed slice.
#[verifier::external_body]
pub(crate) fn boxed_bytes(bytes: Vec<u8>) -> (b: Box<[u8]>)
    ensures
        b@ == bytes@,
{
    bytes.into_boxed_slice()
}

/// A value of the cache: an owned byte string.
#[derive(Debug, Clone)]
pub struct PaperValue(Vec<u8>);

impl View for PaperValue {
    type V = Seq<u8>;

    closed spec fn view(&self) -> Seq<u8> {
        self.0@
    }
}

/// `PaperValue(`
pub open spec fn debug_open() -> Seq<char> {
    seq!['P', 'a', 'p', 'e', 'r', 'V', 'a', 'l', 'u', 'e', '(']
}

/// The debug text of a value: the value as quoted text when it is short (at
/// most 16 bytes) valid UTF-8, `PaperValue(...)` otherwise.
pub open spec fn spec_debug_text(v: Seq<u8>) -> Seq<char> {
    if v.len() <= 16 && valid_utf8(v) {
        debug_open() + seq!['"'] + decode_utf8(v) + seq!['"', ')']
    } else {
        debug_open() + seq!['.', '.', '.', ')']
    }
}

impl PaperValue {
    /// The value's debug text, as in `PaperValue("value")`.
    pub fn debug_text(&self) -> (s: String)
        ensures
            s@ == spec_debug_text(self@),
    {
        let mut s = string_from(&['P', 'a', 'p', 'e', 'r', 'V', 'a', 'l', 'u', 'e', '(']);
        if self.0.len() <= 16 {
            if let Ok(text) = self.to_str() {
                let quote = string_from(&['"']);
                s.append(quote.as_str());
                s.append(text);
                let close = string_from(&['"', ')']);
                s.append(close.as_str());
                return s;
            }
        }
        let rest = string_from(&['.', '.', '.', ')']);
        s.append(rest.as_str());
        s
    }

    /// The value's bytes.
    pub fn as_bytes(&self) -> (b: &[u8])
        ensures
            b@ == self@,
    {
        self.0.as_slice()
    }

    /// The number of bytes in the value.
    pub fn len(&self) -> (n: usize)
        ensures
            n == self@.len(),
    {
        self.0.len()
    }

    /// The value read as UTF-8 text; fails exactly when the bytes are not
    /// valid UTF-8.
    pub fn to_str(&self) -> (r: Result<&str, Utf8Error>)
        ensures
            r is Ok <==> valid_utf8(self@),
            r matches Ok(s) ==> s@ == decode_utf8(self@),
    {
        str_from_utf8(self.0.as_slice())
    }

    /// The value turned into owned UTF-8 text; fails exactly when the bytes
    /// are not valid UTF-8.
    pub fn into_string(self) -> (r: Result<String, FromUtf8Error>)
        ensures
            r is Ok <==> valid_utf8(self@),
            r matches Ok(s) ==> s@ == decode_utf8(self@),
    {
        string_from_utf8(self.0)
    }
}

impl From<Vec<u8>> for PaperValue {
    fn from(value: Vec<u8>) -> (r: Self)
        ensures
            r@ == value@,
    {
        PaperValue(value)
    }
}

impl vstd::std_specs::convert::FromSpecImpl<Vec<u8>> for PaperValue {
    open spec fn obeys_from_spec() -> bool {
        false
    }

    open spec fn from_spec(value: Vec<u8>) -> Self {
        vstd::pervasive::arbitrary()
    }
}

impl From<Box<[u8]>> for PaperValue {
    fn from(value: Box<[u8]>) -> (r: Self)
        ensures
            r@ == value@,
    {
        PaperValue(value.into_vec())
    }
}

impl vstd::std_specs::convert::FromSpecImpl<Box<[u8]>> for PaperValue {
    open spec fn obeys_from_spec() -> bool {
        false
    }

    open spec fn from_spec(value: Box<[u8]>) -> Self {
        vstd::pervasive::arbitrary()
    }
}

impl<'a> From<&'a [u8]> for PaperValue {
    fn from(value: &'a [u8]) -> (r: Self)
        ensures
            r@ == value@,
    {
        PaperValue(slice_to_vec(value))
    }
}

impl<'a> vstd::std_specs::convert::FromSpecImpl<&'a [u8]> for PaperValue {
    open spec fn obeys_from_spec() -> bool {
        false
    }

    open spec fn from_spec(value: &'a [u8]) -> Self {
        vstd::pervasive::arbitrary()
    }
}

impl<'a> From<&'a str> for PaperValue {
    /// The UTF-8 bytes of the text.
    fn from(value: &'a str) -> (r: Self)
        ensures
            r@ == encode_utf8(value@),
    {
        PaperValue(slice_to_vec(value.as_bytes()))
    }
}

impl<'a> vstd::std_specs::convert::FromSpecImpl<&'a str> for PaperValue {
    open spec fn obeys_from_spec() -> bool {
        false
    }

    open spec fn from_spec(value: &'a str) -> Self {
        vstd::pervasive::arbitrary()
    }
}

impl From<String> for PaperValue {
    /// The UTF-8 bytes of the text.
    fn from(value: String) -> (r: Self)
        ensures
            r@ == encode_utf8(value@),
    {
        PaperValue(slice_to_vec(value.as_str().as_bytes()))
    }
}

impl vstd::std_specs::convert::FromSpecImpl<String> for PaperValue {
    open spec fn obeys_from_spec() -> bool {
        false
    }

    open spec fn from_spec(value: String) -> Self {
        vstd::pervasive::arbitrary()
    }
}

impl<'a> From<&'a String> for PaperValue {
    /// The UTF-8 bytes of the text.
    fn from(value: &'a String) -> (r: Self)
        ensures
            r@ == encode_utf8(value@),
    {
        PaperValue(slice_to_vec(value.as_str().as_bytes()))
    }
}

impl<'a> vstd::std_specs::convert::FromSpecImpl<&'a String> for PaperValue {
    open spec fn obeys_from_spec() -> bool {
        false
    }

    open spec fn from_spec(value: &'a String) -> Self {
        vstd::pervasive::arbitrary()
    }
}

impl From<PaperValue> for Box<[u8]> {
    fn from(value: PaperValue) -> (r: Self)
        ensures
            r@ == value@,
    {
        boxed_bytes(value.0)
    }
}

impl vstd::std_specs::convert::FromSpecImpl<PaperValue> for Box<[u8]> {
    open spec fn obeys_from_spec() -> bool {
        false
    }

    open spec fn from_spec(value: PaperValue) -> Self {
        vstd::pervasive::arbitrary()
    }
}

impl From<PaperValue> for Vec<u8> {
    fn from(value: PaperValue) -> (r: Self)
        ensures
            r@ == value@,
    {
        value.0
    }
}

impl vstd::std_specs::convert::FromSpecImpl<PaperValue> for Vec<u8> {
    open spec fn obeys_from_spec() -> bool {
        false
    }

    open spec fn from_spec(value: PaperValue) -> Self {
        vstd::pervasive::arbitrary()
    }
}

impl<'a> From<&'a PaperValue> for &'a [u8] {
    fn from(value: &'a PaperValue) -> (r: Self)
        ensures
            r@ == value@,
    {
        value.0.as_slice()
    }
}

impl<'a> vstd::std_specs::convert::FromSpecImpl<&'a PaperValue> for &'a [u8] {
    open spec fn obeys_from_spec() -> bool {
        false
    }

    open spec fn from_spec(value: &'a PaperValue) -> Self {
        vstd::pervasive::arbitrary()
    }
}

impl<'a> TryFrom<&'a PaperValue> for &'a str {
    type Error = Utf8Error;

    /// The value as UTF-8 text; fails exactly when its bytes are not UTF-8.
    fn try_from(value: &'a PaperValue) -> (r: Result<&'a str, Utf8Error>)
        ensures
            r is Ok <==> valid_utf8(value@),
            r matches Ok(s) ==> s@ == decode_utf8(value@),
    {
        value.to_str()
    }
}

impl<'a> vstd::std_specs::convert::TryFromSpecImpl<&'a PaperValue> for &'a str {
    open spec fn obeys_try_from_spec() -> bool {
        false
    }

    open spec fn try_from_spec(value: &'a PaperValue) -> Result<&'a str, Utf8Error> {
        vstd::pervasive::arbitrary()
    }
}

impl TryFrom<PaperValue> for String {
    type Error = FromUtf8Error;

    /// The value as owned UTF-8 text; fails exactly when its bytes are not
    /// UTF-8.
    fn try_from(value: PaperValue) -> (r: Result<String, FromUtf8Error>)
        ensures
            r is Ok <==> valid_utf8(value@),
            r matches Ok(s) ==> s@ == decode_utf8(value@),
    {
        value.into_string()
    }
}

impl vstd::std_specs::convert::TryFromSpecImpl<PaperValue> for String {
    open spec fn obeys_try_from_spec() -> bool {
        false
    }

    open spec fn try_from_spec(value: PaperValue) -> Result<String, FromUtf8Error> {
        vstd::pervasive::arbitrary()
    }
}

/// A value made from text reads back as that same text: the UTF-8 bytes
/// that `From<&str>` and `From<String>` store are valid UTF-8, and
/// `TryFrom` turns them back into that same text.
pub proof fn law_text_roundtrip(text: Seq<char>)
    ensures
        valid_utf8(encode_utf8(text)),
        decode_utf8(encode_utf8(text)) == text,
{
    vstd::utf8::encode_utf8_valid_utf8(text);
    vstd::utf8::encode_utf8_decode_utf8(text);
}

} // verus!
