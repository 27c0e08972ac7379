//! The byte cursor that the snapshot decoder reads from.
//!
//! The cursor is `bytes::Bytes`. Verus cannot look inside it, so the bytes that
//! are still unread get a name, [`unread`], and every method the decoder calls
//! is reached through a wrapper whose contract is stated over that name. The
//! contracts in this file are believed, not proved.

use bytes::{Buf, Bytes};
use vstd::prelude::*;

verus! {

/// `bytes::Bytes`, made known so that it can stand in signatures. Nothing of
/// its inside is visible to the proofs.
#[verifier::external_type_specification]
#[verifier::external_body]
pub struct ExBytes(bytes::Bytes);

/// The bytes of a cursor that have not been consumed yet, in reading order.
pub uninterp spec fn unread(buf: Bytes) -> Seq<u8>;

/// The number that a run of bytes spells with the most significant byte first.
pub open spec fn be_value(s: Seq<u8>) -> nat
    decreases s.len(),
{
    if s.len() == 0 {
        0
    } else {
        be_value(s.drop_last()) * 256 + s.last() as nat
    }
}

/// The number that a run of bytes spells with the least significant byte first.
pub open spec fn le_value(s: Seq<u8>) -> nat
    decreases s.len(),
{
    if s.len() == 0 {
        0
    } else {
        s.first() as nat + 256 * le_value(s.drop_first())
    }
}

/// `Bytes::from(Vec<u8>)`: a cursor over exactly the bytes of the vector.
#[verifier::external_body]
pub(crate) fn from_vec(data: Vec<u8>) -> (buf: Bytes)
    ensures
        unread(buf) == data@,
{
    Bytes::from(data)
}

/// `Bytes::len`: how many bytes are still unread.
#[verifier::external_body]
pub(crate) fn len(buf: &Bytes) -> (n: usize)
    ensures
        n == unread(*buf).len(),
{
    buf.len()
}

/// `Buf::advance`: drops the next `cnt` bytes. The call panics when fewer
/// than `cnt` bytes are left, so the contract asks for them.
#[verifier::external_body]
pub(crate) fn advance(buf: &mut Bytes, cnt: usize)
    requires
        cnt <= unread(*old(buf)).len(),
    ensures
        unread(*final(buf)) == unread(*old(buf)).skip(cnt as int),
{
    buf.advance(cnt)
}

/// `Buf::get_u8`: takes the next byte. The call panics on an empty cursor.
#[verifier::external_body]
pub(crate) fn get_u8(buf: &mut Bytes) -> (byte: u8)
    requires
        unread(*old(buf)).len() >= 1,
    ensures
        byte == unread(*old(buf))[0],
        unread(*final(buf)) == unread(*old(buf)).skip(1),
{
    buf.get_u8()
}

/// `Buf::get_u32`: takes the next four bytes as a big-endian number. The call
/// panics when fewer than four bytes are left.
#[verifier::external_body]
pub(crate) fn get_u32(buf: &mut Bytes) -> (value: u32)
    requires
        unread(*old(buf)).len() >= 4,
    ensures
        value == be_value(unread(*old(buf)).take(4)),
        unread(*final(buf)) == unread(*old(buf)).skip(4),
{
    buf.get_u32()
}

/// `Buf::get_u32_le`: takes the next four bytes as a little-endian number. The
/// call panics when fewer than four bytes are left.
#[verifier::external_body]
pub(crate) fn get_u32_le(buf: &mut Bytes) -> (value: u32)
    requires
        unread(*old(buf)).len() >= 4,
    ensures
        value == le_value(unread(*old(buf)).take(4)),
        unread(*final(buf)) == unread(*old(buf)).skip(4),
{
    buf.get_u32_le()
}

/// `Buf::get_u64_le`: takes the next eight bytes as a little-endian number.
/// The call panics when fewer than eight bytes are left.
#[verifier::external_body]
pub(crate) fn get_u64_le(buf: &mut Bytes) -> (value: u64)
    requires
        unread(*old(buf)).len() >= 8,
    ensures
        value == le_value(unread(*old(buf)).take(8)),
        unread(*final(buf)) == unread(*old(buf)).skip(8),
{
    buf.get_u64_le()
}

/// `Bytes::split_to`, copied out with `to_vec`: takes the next `at` bytes. The
/// call panics when fewer than `at` bytes are left.
#[verifier::external_body]
pub(crate) fn split_to(buf: &mut Bytes, at: usize) -> (head: Vec<u8>)
    requires
        at <= unread(*old(buf)).len(),
    ensures
        head@ == unread(*old(buf)).take(at as int),
        unread(*final(buf)) == unread(*old(buf)).skip(at as int),
{
    buf.split_to(at).to_vec()
}

} // verus!
