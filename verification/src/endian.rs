//! Numbers as bytes, little-endian and big-endian.

use byteorder::{BigEndian, ByteOrder, LittleEndian};
use vstd::prelude::*;

verus! {

/// 256 to the power of `len`: the number of values that `len` bytes can spell.
pub open spec fn pow256(len: nat) -> nat
    decreases len,
{
    if len == 0 {
        1
    } else {
        256 * pow256((len - 1) as nat)
    }
}

/// The number that the bytes spell, the least significant byte first.
pub open spec fn le_value(bytes: Seq<u8>) -> nat
    decreases bytes.len(),
{
    if bytes.len() == 0 {
        0
    } else {
        bytes[0] as nat + 256 * le_value(bytes.drop_first())
    }
}

/// The number that the bytes spell, the most significant byte first.
pub open spec fn be_value(bytes: Seq<u8>) -> nat
    decreases bytes.len(),
{
    if bytes.len() == 0 {
        0
    } else {
        256 * be_value(bytes.drop_last()) + bytes.last() as nat
    }
}

/// The `len` low bytes of `n`, the least significant byte first.
pub open spec fn le_bytes(n: nat, len: nat) -> Seq<u8>
    decreases len,
{
    if len == 0 {
        Seq::empty()
    } else {
        seq![(n % 256) as u8] + le_bytes(n / 256, (len - 1) as nat)
    }
}

/// The `len` low bytes of `n`, the most significant byte first.
pub open spec fn be_bytes(n: nat, len: nat) -> Seq<u8>
    decreases len,
{
    if len == 0 {
        Seq::empty()
    } else {
        be_bytes(n / 256, (len - 1) as nat).push((n % 256) as u8)
    }
}

/// The powers of 256 for the widths that the wire formats use.
pub proof fn lemma_pow256_values()
    ensures
        pow256(2) == 0x1_0000,
        pow256(4) == 0x1_0000_0000,
        pow256(8) == 0x1_0000_0000_0000_0000,
        pow256(16) == 0x1_0000_0000_0000_0000_0000_0000_0000_0000,
{
    reveal_with_fuel(pow256, 17);
}

/// `le_bytes` and `be_bytes` give as many bytes as asked for.
pub proof fn lemma_bytes_len(n: nat, len: nat)
    ensures
        le_bytes(n, len).len() == len,
        be_bytes(n, len).len() == len,
    decreases len,
{
    if len > 0 {
        lemma_bytes_len(n / 256, (len - 1) as nat);
    }
}

/// Reading back the little-endian bytes of a number that fits gives the
/// number.
pub proof fn lemma_le_round_trip(n: nat, len: nat)
    requires
        n < pow256(len),
    ensures
        le_value(le_bytes(n, len)) == n,
    decreases len,
{
    if len > 0 {
        let rest = le_bytes(n / 256, (len - 1) as nat);
        lemma_le_round_trip(n / 256, (len - 1) as nat);
        assert(le_bytes(n, len).drop_first() =~= rest);
    }
}

/// Reading back the big-endian bytes of a number that fits gives the number.
pub proof fn lemma_be_round_trip(n: nat, len: nat)
    requires
        n < pow256(len),
    ensures
        be_value(be_bytes(n, len)) == n,
    decreases len,
{
    if len > 0 {
        let rest = be_bytes(n / 256, (len - 1) as nat);
        lemma_be_round_trip(n / 256, (len - 1) as nat);
        assert(be_bytes(n, len).drop_last() =~= rest);
    }
}

/// Reads a `u32` from the first four bytes of `buf` with
/// `byteorder::LittleEndian::read_u32`, which takes them least significant
/// byte first and panics on a shorter buffer.
#[verifier::external_body]
pub(crate) fn read_u32_le(buf: &[u8]) -> (n: u32)
    requires
        buf@.len() >= 4,
    ensures
        n == le_value(buf@.subrange(0, 4)),
{
    LittleEndian::read_u32(buf)
}

/// Reads a `u64` from the first eight bytes of `buf` with
/// `byteorder::LittleEndian::read_u64`, which takes them least significant
/// byte first and panics on a shorter buffer.
#[verifier::external_body]
pub(crate) fn read_u64_le(buf: &[u8]) -> (n: u64)
    requires
        buf@.len() >= 8,
    ensures
        n == le_value(buf@.subrange(0, 8)),
{
    LittleEndian::read_u64(buf)
}

/// Reads a `u128` from the first sixteen bytes of `buf` with
/// `byteorder::BigEndian::read_u128`, which takes them most significant byte
/// first and panics on a shorter buffer.
#[verifier::external_body]
pub(crate) fn read_u128_be(buf: &[u8]) -> (n: u128)
    requires
        buf@.len() >= 16,
    ensures
        n == be_value(buf@.subrange(0, 16)),
{
    BigEndian::read_u128(buf)
}

/// Reads a `u16` from the first two bytes of `buf` with
/// `byteorder::BigEndian::read_u16`, which takes them most significant byte
/// first and panics on a shorter buffer.
#[verifier::external_body]
pub(crate) fn read_u16_be(buf: &[u8]) -> (n: u16)
    requires
        buf@.len() >= 2,
    ensures
        n == be_value(buf@.subrange(0, 2)),
{
    BigEndian::read_u16(buf)
}

/// The four bytes that `byteorder::LittleEndian::write_u32` writes for `n`:
/// its bytes, the least significant first.
#[verifier::external_body]
pub(crate) fn u32_le_bytes(n: u32) -> (bytes: Vec<u8>)
    ensures
        bytes@ == le_bytes(n as nat, 4),
{
    let mut buf = [0u8; 4];
    LittleEndian::write_u32(&mut buf, n);
    buf.to_vec()
}

/// The eight bytes that `byteorder::LittleEndian::write_u64` writes for `n`:
/// its bytes, the least significant first.
#[verifier::external_body]
pub(crate) fn u64_le_bytes(n: u64) -> (bytes: Vec<u8>)
    ensures
        bytes@ == le_bytes(n as nat, 8),
{
    let mut buf = [0u8; 8];
    LittleEndian::write_u64(&mut buf, n);
    buf.to_vec()
}

/// The sixteen bytes that `byteorder::BigEndian::write_u128` writes for `n`:
/// its bytes, the most significant first.
#[verifier::external_body]
pub(crate) fn u128_be_bytes(n: u128) -> (bytes: Vec<u8>)
    ensures
        bytes@ == be_bytes(n as nat, 16),
{
    let mut buf = [0u8; 16];
    BigEndian::write_u128(&mut buf, n);
    buf.to_vec()
}

/// The two bytes that `byteorder::BigEndian::write_u16` writes for `n`: its
/// bytes, the most significant first.
#[verifier::external_body]
pub(crate) fn u16_be_bytes(n: u16) -> (bytes: Vec<u8>)
    ensures
        bytes@ == be_bytes(n as nat, 2),
{
    let mut buf = [0u8; 2];
    BigEndian::write_u16(&mut buf, n);
    buf.to_vec()
}

} // verus!
