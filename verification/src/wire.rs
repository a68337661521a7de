//! Big-endian integers on the wire.
//!
//! The framing of a generation writes every integer most significant byte
//! first. `be_value` and `be_bytes` say what that means; the `put_*` and
//! `get_*` functions do it, through the `byteorder` crate.

use byteorder::{BigEndian, ByteOrder};
use vstd::prelude::*;
use vstd::slice::slice_subrange;

verus! {

/// The number that `bytes` spell when read most significant byte first.
pub open spec fn be_value(bytes: Seq<u8>) -> nat
    decreases bytes.len(),
{
    if bytes.len() == 0 {
        0
    } else {
        be_value(bytes.drop_last()) * 256 + bytes.last() as nat
    }
}

/// The `width` lowest base-256 digits of `value`, most significant first.
pub open spec fn be_bytes(value: nat, width: nat) -> Seq<u8>
    decreases width,
{
    if width == 0 {
        Seq::empty()
    } else {
        be_bytes(value / 256, (width - 1) as nat).push((value % 256) as u8)
    }
}

/// 256 to the power `width`: the number of values that `width` bytes can spell.
pub open spec fn pow256(width: nat) -> nat
    decreases width,
{
    if width == 0 {
        1
    } else {
        256 * pow256((width - 1) as nat)
    }
}

/// `be_bytes` produces exactly `width` bytes.
pub proof fn lemma_be_bytes_len(value: nat, width: nat)
    ensures
        be_bytes(value, width).len() == width,
    decreases width,
{
    if width > 0 {
        lemma_be_bytes_len(value / 256, (width - 1) as nat);
    }
}

/// Reading back what was written gives the number again, as long as the
/// number fits in the width.
pub proof fn lemma_be_value_of_bytes(value: nat, width: nat)
    requires
        value < pow256(width),
    ensures
        be_value(be_bytes(value, width)) == value,
    decreases width,
{
    if width > 0 {
        let rest = be_bytes(value / 256, (width - 1) as nat);
        lemma_be_bytes_len(value / 256, (width - 1) as nat);
        lemma_be_value_of_bytes(value / 256, (width - 1) as nat);
        let all = rest.push((value % 256) as u8);
        assert(all.drop_last() =~= rest);
        assert(all.last() == (value % 256) as u8);
    }
}

/// Every byte string is the big-endian spelling of its own value, and that
/// value fits in the string's width.
pub proof fn lemma_be_bytes_of_value(bytes: Seq<u8>)
    ensures
        be_value(bytes) < pow256(bytes.len()),
        be_bytes(be_value(bytes), bytes.len()) == bytes,
    decreases bytes.len(),
{
    if bytes.len() > 0 {
        lemma_be_bytes_of_value(bytes.drop_last());
        let high = be_value(bytes.drop_last());
        let value = be_value(bytes);
        assert(value == high * 256 + bytes.last() as nat);
        assert(value / 256 == high);
        assert(value % 256 == bytes.last() as nat);
        assert(be_bytes(value, bytes.len()) =~= bytes);
    } else {
        assert(be_bytes(0, 0) =~= bytes);
    }
}

/// The widths used on the wire hold exactly the machine integers.
pub proof fn lemma_pow256_widths()
    ensures
        pow256(2) == 0x1_0000,
        pow256(4) == 0x1_0000_0000,
        pow256(8) == 0x1_0000_0000_0000_0000,
{
    reveal_with_fuel(pow256, 9);
}

/// `byteorder::BigEndian::write_u16` on a fresh two-byte buffer: the buffer
/// then holds the big-endian spelling of `value`.
#[verifier::external_body]
fn be_u16_bytes(value: u16) -> (bytes: [u8; 2])
    ensures
        bytes@ == be_bytes(value as nat, 2),
{
    let mut bytes = [0u8; 2];
    BigEndian::write_u16(&mut bytes, value);
    bytes
}

/// `byteorder::BigEndian::write_u32` on a fresh four-byte buffer: the buffer
/// then holds the big-endian spelling of `value`.
#[verifier::external_body]
fn be_u32_bytes(value: u32) -> (bytes: [u8; 4])
    ensures
        bytes@ == be_bytes(value as nat, 4),
{
    let mut bytes = [0u8; 4];
    BigEndian::write_u32(&mut bytes, value);
    bytes
}

/// `byteorder::BigEndian::write_u64` on a fresh eight-byte buffer: the buffer
/// then holds the big-endian spelling of `value`.
#[verifier::external_body]
fn be_u64_bytes(value: u64) -> (bytes: [u8; 8])
    ensures
        bytes@ == be_bytes(value as nat, 8),
{
    let mut bytes = [0u8; 8];
    BigEndian::write_u64(&mut bytes, value);
    bytes
}

/// `byteorder::BigEndian::read_u16`: the value that the first two bytes of
/// `buf` spell. It panics on a shorter buffer, which `requires` rules out.
#[verifier::external_body]
fn be_u16_value(buf: &[u8]) -> (value: u16)
    requires
        buf@.len() >= 2,
    ensures
        value as nat == be_value(buf@.subrange(0, 2)),
{
    BigEndian::read_u16(buf)
}

/// `byteorder::BigEndian::read_u32`: the value that the first four bytes of
/// `buf` spell. It panics on a shorter buffer, which `requires` rules out.
#[verifier::external_body]
fn be_u32_value(buf: &[u8]) -> (value: u32)
    requires
        buf@.len() >= 4,
    ensures
        value as nat == be_value(buf@.subrange(0, 4)),
{
    BigEndian::read_u32(buf)
}

/// `byteorder::BigEndian::read_u64`: the value that the first eight bytes of
/// `buf` spell. It panics on a shorter buffer, which `requires` rules out.
#[verifier::external_body]
fn be_u64_value(buf: &[u8]) -> (value: u64)
    requires
        buf@.len() >= 8,
    ensures
        value as nat == be_value(buf@.subrange(0, 8)),
{
    BigEndian::read_u64(buf)
}

/// Appends `value` to `out` as two big-endian bytes.
pub fn put_u16(out: &mut Vec<u8>, value: u16)
    ensures
        final(out)@ == old(out)@ + be_bytes(value as nat, 2),
        final(out)@.len() == old(out)@.len() + 2,
{
    let bytes = be_u16_bytes(value);
    out.extend_from_slice(bytes.as_slice());
    assert(out@ =~= old(out)@ + be_bytes(value as nat, 2));
}

/// Appends `value` to `out` as four big-endian bytes.
pub fn put_u32(out: &mut Vec<u8>, value: u32)
    ensures
        final(out)@ == old(out)@ + be_bytes(value as nat, 4),
        final(out)@.len() == old(out)@.len() + 4,
{
    let bytes = be_u32_bytes(value);
    out.extend_from_slice(bytes.as_slice());
    assert(out@ =~= old(out)@ + be_bytes(value as nat, 4));
}

/// Appends `value` to `out` as eight big-endian bytes.
pub fn put_u64(out: &mut Vec<u8>, value: u64)
    ensures
        final(out)@ == old(out)@ + be_bytes(value as nat, 8),
        final(out)@.len() == old(out)@.len() + 8,
{
    let bytes = be_u64_bytes(value);
    out.extend_from_slice(bytes.as_slice());
    assert(out@ =~= old(out)@ + be_bytes(value as nat, 8));
}

/// The big-endian number in the two bytes of `bytes` that start at `at`.
pub fn get_u16(bytes: &[u8], at: usize) -> (value: u16)
    requires
        at + 2 <= bytes.len(),
    ensures
        value as nat == be_value(bytes@.subrange(at as int, at + 2)),
{
    let field = slice_subrange(bytes, at, at + 2);
    assert(field@.subrange(0, 2) =~= field@);
    be_u16_value(field)
}

/// The big-endian number in the four bytes of `bytes` that start at `at`.
pub fn get_u32(bytes: &[u8], at: usize) -> (value: u32)
    requires
        at + 4 <= bytes.len(),
    ensures
        value as nat == be_value(bytes@.subrange(at as int, at + 4)),
{
    let field = slice_subrange(bytes, at, at + 4);
    assert(field@.subrange(0, 4) =~= field@);
    be_u32_value(field)
}

/// The big-endian number in the eight bytes of `bytes` that start at `at`.
pub fn get_u64(bytes: &[u8], at: usize) -> (value: u64)
    requires
        at + 8 <= bytes.len(),
    ensures
        value as nat == be_value(bytes@.subrange(at as int, at + 8)),
{
    let field = slice_subrange(bytes, at, at + 8);
    assert(field@.subrange(0, 8) =~= field@);
    be_u64_value(field)
}

} // verus!
