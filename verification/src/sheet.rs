//! Request frames, built with `paper_utils`'s sheet builder.
use vstd::prelude::*;

use paper_utils::command::CommandByte;
use paper_utils::sheet::{Sheet, SheetBuilder};

use crate::wire::{buf_field, str_field, u32_le, u64_le};

verus! {

#[verifier::external_type_specification]
#[verifier::external_body]
pub struct ExSheetBuilder(SheetBuilder);

#[verifier::external_type_specification]
#[verifier::external_body]
pub struct ExSheet(Sheet);

/// The bytes a sheet builder holds so far.
pub uninterp spec fn builder_bytes(b: SheetBuilder) -> Seq<u8>;

/// The bytes of a finished sheet, as it is written to the stream.
pub uninterp spec fn sheet_bytes(s: Sheet) -> Seq<u8>;

/// `SheetBuilder::new`: a builder that holds no bytes.
#[verifier::external_body]
pub(crate) fn builder_new() -> (b: SheetBuilder)
    ensures
        builder_bytes(b) == Seq::<u8>::empty(),
{
    SheetBuilder::new()
}

/// `SheetBuilder::write_u8`: appends the byte.
#[verifier::external_body]
pub(crate) fn builder_write_u8(b: SheetBuilder, value: u8) -> (r: SheetBuilder)
    ensures
        builder_bytes(r) == builder_bytes(b).push(value),
{
    b.write_u8(value)
}

/// `SheetBuilder::write_u32`: appends the little-endian bytes of the value.
#[verifier::external_body]
pub(crate) fn builder_write_u32(b: SheetBuilder, value: u32) -> (r: SheetBuilder)
    ensures
        builder_bytes(r) == builder_bytes(b) + u32_le(value),
{
    b.write_u32(value)
}

/// `SheetBuilder::write_u64`: appends the little-endian bytes of the value.
#[verifier::external_body]
pub(crate) fn builder_write_u64(b: SheetBuilder, value: u64) -> (r: SheetBuilder)
    ensures
        builder_bytes(r) == builder_bytes(b) + u64_le(value),
{
    b.write_u64(value)
}

/// `SheetBuilder::write_buf`: appends the length as a `u32` (cut to its low
/// 32 bits), then the bytes.
#[verifier::external_body]
pub(crate) fn builder_write_buf(b: SheetBuilder, value: &[u8]) -> (r: SheetBuilder)
    ensures
        builder_bytes(r) == builder_bytes(b) + buf_field(value@),
{
    b.write_buf(value)
}

/// `SheetBuilder::write_str`: appends the string's UTF-8 bytes as a
/// length-prefixed field, as `write_buf` does.
#[verifier::external_body]
pub(crate) fn builder_write_str(b: SheetBuilder, value: &str) -> (r: SheetBuilder)
    ensures
        builder_bytes(r) == builder_bytes(b) + str_field(value@),
{
    b.write_str(value)
}

/// `SheetBuilder::into_sheet`: a sheet holding exactly the builder's bytes.
#[verifier::external_body]
pub(crate) fn builder_into_sheet(b: SheetBuilder) -> (s: Sheet)
    ensures
        sheet_bytes(s) == builder_bytes(b),
{
    b.into_sheet()
}

/// The request code of each command.
pub open spec fn code_of_ping() -> u8 { 0 }
pub open spec fn code_of_version() -> u8 { 1 }
pub open spec fn code_of_auth() -> u8 { 2 }
pub open spec fn code_of_get() -> u8 { 3 }
pub open spec fn code_of_set() -> u8 { 4 }
pub open spec fn code_of_del() -> u8 { 5 }
pub open spec fn code_of_has() -> u8 { 6 }
pub open spec fn code_of_peek() -> u8 { 7 }
pub open spec fn code_of_ttl() -> u8 { 8 }
pub open spec fn code_of_size() -> u8 { 9 }
pub open spec fn code_of_wipe() -> u8 { 10 }
pub open spec fn code_of_resize() -> u8 { 11 }
pub open spec fn code_of_policy() -> u8 { 12 }
pub open spec fn code_of_status() -> u8 { 13 }

/// `CommandByte::PING`.
#[verifier::external_body]
pub(crate) fn ping_code() -> (b: u8)
    ensures
        b == code_of_ping(),
{
    CommandByte::PING
}

/// `CommandByte::VERSION`.
#[verifier::external_body]
pub(crate) fn version_code() -> (b: u8)
    ensures
        b == code_of_version(),
{
    CommandByte::VERSION
}

/// `CommandByte::AUTH`.
#[verifier::external_body]
pub(crate) fn auth_code() -> (b: u8)
    ensures
        b == code_of_auth(),
{
    CommandByte::AUTH
}

/// `CommandByte::GET`.
#[verifier::external_body]
pub(crate) fn get_code() -> (b: u8)
    ensures
        b == code_of_get(),
{
    CommandByte::GET
}

/// `CommandByte::SET`.
#[verifier::external_body]
pub(crate) fn set_code() -> (b: u8)
    ensures
        b == code_of_set(),
{
    CommandByte::SET
}

/// `CommandByte::DEL`.
#[verifier::external_body]
pub(crate) fn del_code() -> (b: u8)
    ensures
        b == code_of_del(),
{
    CommandByte::DEL
}

/// `CommandByte::HAS`.
#[verifier::external_body]
pub(crate) fn has_code() -> (b: u8)
    ensures
        b == code_of_has(),
{
    CommandByte::HAS
}

/// `CommandByte::PEEK`.
#[verifier::external_body]
pub(crate) fn peek_code() -> (b: u8)
    ensures
        b == code_of_peek(),
{
    CommandByte::PEEK
}

/// `CommandByte::TTL`.
#[verifier::external_body]
pub(crate) fn ttl_code() -> (b: u8)
    ensures
        b == code_of_ttl(),
{
    CommandByte::TTL
}

/// `CommandByte::SIZE`.
#[verifier::external_body]
pub(crate) fn size_code() -> (b: u8)
    ensures
        b == code_of_size(),
{
    CommandByte::SIZE
}

/// `CommandByte::WIPE`.
#[verifier::external_body]
pub(crate) fn wipe_code() -> (b: u8)
    ensures
        b == code_of_wipe(),
{
    CommandByte::WIPE
}

/// `CommandByte::RESIZE`.
#[verifier::external_body]
pub(crate) fn resize_code() -> (b: u8)
    ensures
        b == code_of_resize(),
{
    CommandByte::RESIZE
}

/// `CommandByte::POLICY`.
#[verifier::external_body]
pub(crate) fn policy_code() -> (b: u8)
    ensures
        b == code_of_policy(),
{
    CommandByte::POLICY
}

/// `CommandByte::STATUS`.
#[verifier::external_body]
pub(crate) fn status_code() -> (b: u8)
    ensures
        b == code_of_status(),
{
    CommandByte::STATUS
}

} // verus!
