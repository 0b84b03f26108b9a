//! Width-aware little-endian reads of pointer-sized values from raw bytes.
use crate::frame::Declined;
use scroll::Pread;
use vstd::arithmetic::div_mod::{lemma_breakdown, lemma_small_mod};
use vstd::prelude::*;

verus! {

/// The unsigned integer that the bytes `s` encode, least significant byte first.
pub open spec fn le_value(s: Seq<u8>) -> nat
    decreases s.len(),
{
    if s.len() == 0 {
        0
    } else {
        s[0] as nat + 256 * le_value(s.drop_first())
    }
}

/// The `n` bytes that encode `v` least significant byte first (higher bytes dropped).
pub open spec fn le_bytes(v: nat, n: nat) -> Seq<u8>
    decreases n,
{
    if n == 0 {
        Seq::empty()
    } else {
        seq![(v % 256) as u8].add(le_bytes(v / 256, (n - 1) as nat))
    }
}

/// The number of distinct values that `n` bytes can hold.
pub open spec fn byte_range(n: nat) -> nat
    decreases n,
{
    if n == 0 {
        1
    } else {
        256 * byte_range((n - 1) as nat)
    }
}

/// `bytes` with `piece` written over it from `offset` on.
pub open spec fn splice(bytes: Seq<u8>, offset: int, piece: Seq<u8>) -> Seq<u8> {
    bytes.subrange(0, offset) + piece + bytes.subrange(offset + piece.len(), bytes.len() as int)
}

/// Number of bytes in a pointer of the given mode.
pub open spec fn ptr_width(is_64bit: bool) -> nat {
    if is_64bit {
        8
    } else {
        4
    }
}

/// The pointer-width value stored at `offset` in `bytes`, or `None` when any of
/// its bytes lies outside the buffer.
pub open spec fn read_ptr_spec(bytes: Seq<u8>, offset: int, is_64bit: bool) -> Option<u64> {
    let w = ptr_width(is_64bit) as int;
    if 0 <= offset && offset + w <= bytes.len() {
        Some(le_value(bytes.subrange(offset, offset + w)) as u64)
    } else {
        None
    }
}

/// Relies on scroll's `Pread::pread_with::<u64>` on a byte slice with `Endian::Little`:
/// it fails exactly when fewer than eight bytes remain at `offset`, and otherwise
/// decodes those eight bytes least significant first.
#[verifier::external_body]
fn read_u64_le(bytes: &[u8], offset: usize) -> (r: Option<u64>)
    ensures
        r.is_some() <==> offset + 8 <= bytes@.len(),
        r.is_some() ==> r.unwrap() as nat == le_value(bytes@.subrange(offset as int, offset + 8)),
{
    bytes.pread_with::<u64>(offset, scroll::Endian::Little).ok()
}

/// Relies on scroll's `Pread::pread_with::<u32>` on a byte slice with `Endian::Little`:
/// it fails exactly when fewer than four bytes remain at `offset`, and otherwise
/// decodes those four bytes least significant first.
#[verifier::external_body]
fn read_u32_le(bytes: &[u8], offset: usize) -> (r: Option<u32>)
    ensures
        r.is_some() <==> offset + 4 <= bytes@.len(),
        r.is_some() ==> r.unwrap() as nat == le_value(bytes@.subrange(offset as int, offset + 4)),
{
    bytes.pread_with::<u32>(offset, scroll::Endian::Little).ok()
}

/// Reads the little-endian pointer-width value at `offset` in `bytes`, widened to
/// 64 bits; fails with `OutOfBounds` when the read would pass the end of `bytes`.
pub fn pread_ptr(bytes: &[u8], offset: u64, is_64bit: bool) -> (r: Result<u64, Declined>)
    ensures
        offset + ptr_width(is_64bit) > bytes@.len() ==> r == Err::<u64, Declined>(Declined::OutOfBounds),
        match r {
            Ok(v) => read_ptr_spec(bytes@, offset as int, is_64bit) == Some(v),
            Err(e) => read_ptr_spec(bytes@, offset as int, is_64bit) is None && e == Declined::OutOfBounds,
        },
{
    if offset > bytes.len() as u64 {
        return Err(Declined::OutOfBounds);
    }
    let at = offset as usize;
    if is_64bit {
        match read_u64_le(bytes, at) {
            Some(v) => Ok(v),
            None => Err(Declined::OutOfBounds),
        }
    } else {
        match read_u32_le(bytes, at) {
            Some(v) => Ok(v as u64),
            None => Err(Declined::OutOfBounds),
        }
    }
}

/// Encoding `v` in `n` bytes and decoding them keeps `v` modulo the range of `n` bytes.
pub proof fn lemma_le_decode_encode(v: nat, n: nat)
    ensures
        le_bytes(v, n).len() == n,
        le_value(le_bytes(v, n)) == v % byte_range(n),
    decreases n,
{
    if n == 0 {
        lemma_small_mod(0, 1);
        assert(v % 1 == 0) by (nonlinear_arith);
    } else {
        let m = (n - 1) as nat;
        lemma_le_decode_encode(v / 256, m);
        let s = le_bytes(v, n);
        assert(s.drop_first() =~= le_bytes(v / 256, m));
        assert(byte_range(m) > 0) by {
            lemma_byte_range_positive(m);
        }
        lemma_breakdown(v as int, 256, byte_range(m) as int);
    }
}

proof fn lemma_byte_range_positive(n: nat)
    ensures
        byte_range(n) > 0,
    decreases n,
{
    if n > 0 {
        lemma_byte_range_positive((n - 1) as nat);
    }
}

/// A pointer-width value written little-endian into a buffer at an offset where it
/// fits is read back unchanged from that offset.
pub proof fn lemma_pread_round_trip(bytes: Seq<u8>, offset: int, v: u64, is_64bit: bool)
    requires
        0 <= offset,
        offset + ptr_width(is_64bit) <= bytes.len(),
        is_64bit || v <= u32::MAX,
    ensures
        read_ptr_spec(
            splice(bytes, offset, le_bytes(v as nat, ptr_width(is_64bit))),
            offset,
            is_64bit,
        ) == Some(v),
{
    let w = ptr_width(is_64bit);
    let piece = le_bytes(v as nat, w);
    lemma_le_decode_encode(v as nat, w);
    let out = splice(bytes, offset, piece);
    assert(out.subrange(offset, offset + w) =~= piece);
    reveal_with_fuel(byte_range, 9);
    lemma_small_mod(v as nat, byte_range(w));
}

} // verus!
