//! Header-block fixup.
//!
//! The first block of certain file types carries a checksum and a metadata
//! word that differ on disk from what tools expect of a file copied through
//! the official copy path.  The fixup XORs the little-endian 32-bit value
//! at bytes `0x10..0x14` with `0x0000_81A0` and overwrites bytes
//! `0x20..0x24` with the little-endian encoding of that same constant.
use vstd::prelude::*;

use crate::error::AsmError;

verus! {

/// The constant XORed into the checksum word and written over the metadata
/// word.
pub const HEADER_MAGIC: u32 = 0x0000_81a0;

/// The fixup refuses buffers shorter than this.
pub const HEADER_BLOCK_BYTES: usize = 512;

/// The little-endian 32-bit value of four bytes.
pub open spec fn spec_le32(b0: u8, b1: u8, b2: u8, b3: u8) -> u32 {
    (b0 as u32) | ((b1 as u32) << 8) | ((b2 as u32) << 16) | ((b3 as u32) << 24)
}

/// The buffer after the header fixup: the checksum word at `0x10..0x14`
/// XORed with the magic constant, the metadata word at `0x20..0x24`
/// overwritten with it, every other byte unchanged.
pub open spec fn spec_fix_header(s: Seq<u8>) -> Seq<u8> {
    let c = spec_le32(s[0x10], s[0x11], s[0x12], s[0x13]) ^ HEADER_MAGIC;
    Seq::new(
        s.len(),
        |k: int|
            {
                if k == 0x10 {
                    c as u8
                } else if k == 0x11 {
                    (c >> 8) as u8
                } else if k == 0x12 {
                    (c >> 16) as u8
                } else if k == 0x13 {
                    (c >> 24) as u8
                } else if k == 0x20 {
                    HEADER_MAGIC as u8
                } else if k == 0x21 {
                    (HEADER_MAGIC >> 8) as u8
                } else if k == 0x22 {
                    (HEADER_MAGIC >> 16) as u8
                } else if k == 0x23 {
                    (HEADER_MAGIC >> 24) as u8
                } else {
                    s[k]
                }
            },
    )
}

/// Applies the header fixup in place.  Buffers shorter than one 512-byte
/// block are refused with a format error and left unchanged.
pub fn fix_header_block(buffer: &mut Vec<u8>) -> (r: Result<(), AsmError>)
    ensures
        old(buffer)@.len() < HEADER_BLOCK_BYTES ==> r == Err::<(), AsmError>(
            AsmError::HeaderTooShort,
        ) && final(buffer)@ == old(buffer)@,
        old(buffer)@.len() >= HEADER_BLOCK_BYTES ==> r == Ok::<(), AsmError>(()) && final(buffer)@
            == spec_fix_header(old(buffer)@),
{
    if buffer.len() < HEADER_BLOCK_BYTES {
        return Err(AsmError::HeaderTooShort);
    }
    let b0 = buffer[0x10];
    let b1 = buffer[0x11];
    let b2 = buffer[0x12];
    let b3 = buffer[0x13];
    let c: u32 = ((b0 as u32) | ((b1 as u32) << 8) | ((b2 as u32) << 16) | ((b3 as u32) << 24))
        ^ HEADER_MAGIC;
    buffer[0x10] = c as u8;
    buffer[0x11] = (c >> 8) as u8;
    buffer[0x12] = (c >> 16) as u8;
    buffer[0x13] = (c >> 24) as u8;
    buffer[0x20] = HEADER_MAGIC as u8;
    buffer[0x21] = (HEADER_MAGIC >> 8) as u8;
    buffer[0x22] = (HEADER_MAGIC >> 16) as u8;
    buffer[0x23] = (HEADER_MAGIC >> 24) as u8;
    proof {
        assert(buffer@ =~= spec_fix_header(old(buffer)@));
    }
    Ok(())
}

/// Reassembling a 32-bit value from its four little-endian bytes yields the
/// value again.
pub proof fn lemma_le32_round_trip(v: u32)
    ensures
        spec_le32(v as u8, (v >> 8) as u8, (v >> 16) as u8, (v >> 24) as u8) == v,
{
    assert(((v as u8) as u32) | (((v >> 8) as u8 as u32) << 8) | (((v >> 16) as u8 as u32) << 16) | (
    ((v >> 24) as u8 as u32) << 24) == v) by (bit_vector);
}

/// After one fixup the metadata word holds the magic constant: byte `0xA0`
/// at offset `0x20`, byte `0x81` at offset `0x21`, zero bytes above.
pub proof fn lemma_fix_header_magic_bytes(s: Seq<u8>)
    requires
        s.len() >= HEADER_BLOCK_BYTES,
    ensures
        spec_fix_header(s)[0x20] == 0xa0,
        spec_fix_header(s)[0x21] == 0x81,
        spec_fix_header(s)[0x22] == 0x00,
        spec_fix_header(s)[0x23] == 0x00,
{
    assert(0x0000_81a0u32 as u8 == 0xa0 && (0x0000_81a0u32 >> 8) as u8 == 0x81 && (0x0000_81a0u32
        >> 16) as u8 == 0x00 && (0x0000_81a0u32 >> 24) as u8 == 0x00) by (bit_vector);
}

/// The checksum word alone round-trips: a second fixup XORs it back.
pub proof fn lemma_fix_header_checksum_restored(s: Seq<u8>)
    requires
        s.len() >= HEADER_BLOCK_BYTES,
    ensures
        forall|k: int|
            0x10 <= k < 0x14 ==> #[trigger] spec_fix_header(spec_fix_header(s))[k] == s[k],
{
    let x0 = s[0x10];
    let x1 = s[0x11];
    let x2 = s[0x12];
    let x3 = s[0x13];
    let v = spec_le32(x0, x1, x2, x3);
    let c1 = v ^ HEADER_MAGIC;
    lemma_le32_round_trip(c1);
    assert((v ^ 0x0000_81a0u32) ^ 0x0000_81a0u32 == v) by (bit_vector);
    assert((x0 as u32) | ((x1 as u32) << 8) | ((x2 as u32) << 16) | ((x3 as u32) << 24) == ((v
        as u8) as u32) | (((v >> 8) as u8 as u32) << 8) | (((v >> 16) as u8 as u32) << 16) | (((v
        >> 24) as u8 as u32) << 24) ==> (v as u8 == x0 && (v >> 8) as u8 == x1 && (v >> 16) as u8
        == x2 && (v >> 24) as u8 == x3)) by (bit_vector);
    lemma_le32_round_trip(v);
}

/// Applying the fixup twice is not the identity: the checksum word is XORed
/// back, but the metadata word stays overwritten.  Whenever the metadata
/// word did not already hold the magic constant, the doubly-fixed buffer
/// differs from the one it started from.
pub proof fn lemma_fix_header_twice_not_identity(s: Seq<u8>)
    requires
        s.len() >= HEADER_BLOCK_BYTES,
        s[0x20] != 0xa0 || s[0x21] != 0x81 || s[0x22] != 0x00 || s[0x23] != 0x00,
    ensures
        spec_fix_header(spec_fix_header(s)) != s,
{
    let f1 = spec_fix_header(s);
    let f2 = spec_fix_header(f1);
    lemma_fix_header_magic_bytes(s);
    lemma_fix_header_magic_bytes(f1);
    if f2 == s {
        assert(f2[0x20] == s[0x20] && f2[0x21] == s[0x21] && f2[0x22] == s[0x22] && f2[0x23]
            == s[0x23]);
    }
}

} // verus!
