//! Structured archive-log trailer block.
//!
//! The read path ships a plain `0xFE`-filled trailer block (see
//! [`crate::readeng`]).  This module holds the in-progress structured
//! layout of that block — a type identifier, constant flag words and
//! patterns at fixed offsets, zero padding elsewhere — kept alongside the
//! simple fill until the remaining fields are understood.
use vstd::prelude::*;

verus! {

/// Length in bytes of the trailer block.
pub const TRAIL_BLOCK_BYTES: usize = 512;

/// The structured trailer block: each constant at its offset,
/// little-endian, every other byte zero.
pub open spec fn spec_archivelog_trail() -> Seq<u8> {
    Seq::new(
        TRAIL_BLOCK_BYTES as nat,
        |k: int|
            {
                if k == 0x00 {
                    0x01u8
                } else if k == 0x01 {
                    0x22u8
                } else if k == 0x0a {
                    0x10u8
                } else if k == 0x0b {
                    0x80u8
                } else if k == 0x0e {
                    0x8cu8
                } else if k == 0x18 {
                    0x01u8
                } else if k == 0x22 {
                    0x01u8
                } else if k == 0x24 {
                    0x01u8
                } else if k == 0x25 {
                    0x01u8
                } else if k == 0x28 {
                    0x01u8
                } else if k == 0x2b {
                    0x0au8
                } else if k == 0x52 {
                    0x18u8
                } else if k == 0x53 {
                    0x04u8
                } else {
                    0x00u8
                }
            },
    )
}

/// Writes one byte at `offset`.
pub fn write_u8(buf: &mut Vec<u8>, offset: usize, value: u8)
    requires
        offset < old(buf)@.len(),
    ensures
        final(buf)@ == old(buf)@.update(offset as int, value),
{
    buf[offset] = value;
}

/// Writes a 16-bit value at `offset`, little-endian.
pub fn write_u16_le(buf: &mut Vec<u8>, offset: usize, value: u16)
    requires
        offset + 2 <= old(buf)@.len(),
    ensures
        final(buf)@ == old(buf)@.update(offset as int, value as u8).update(
            offset + 1,
            (value >> 8) as u8,
        ),
{
    let n = buf.len();
    assert(offset + 2 <= n);
    buf[offset] = value as u8;
    buf[offset + 1] = (value >> 8) as u8;
}

/// Writes a 32-bit value at `offset`, little-endian.
pub fn write_u32_le(buf: &mut Vec<u8>, offset: usize, value: u32)
    requires
        offset + 4 <= old(buf)@.len(),
    ensures
        final(buf)@ == old(buf)@.update(offset as int, value as u8).update(
            offset + 1,
            (value >> 8) as u8,
        ).update(offset + 2, (value >> 16) as u8).update(offset + 3, (value >> 24) as u8),
{
    let n = buf.len();
    assert(offset + 4 <= n);
    buf[offset] = value as u8;
    buf[offset + 1] = (value >> 8) as u8;
    buf[offset + 2] = (value >> 16) as u8;
    buf[offset + 3] = (value >> 24) as u8;
}

/// Builds the structured trailer block.
pub fn generate_archivelog_trail() -> (r: Result<Vec<u8>, String>)
    ensures
        r matches Ok(block) && block@ == spec_archivelog_trail(),
{
    let mut block: Vec<u8> = Vec::new();
    let mut k: usize = 0;
    while k < TRAIL_BLOCK_BYTES
        invariant
            k <= TRAIL_BLOCK_BYTES,
            block@ == Seq::new(k as nat, |j: int| 0x00u8),
        decreases TRAIL_BLOCK_BYTES - k,
    {
        block.push(0x00);
        k = k + 1;
        proof {
            assert(block@ =~= Seq::new(k as nat, |j: int| 0x00u8));
        }
    }
    write_u16_le(&mut block, 0x00, 0x2201);  // block type identifier
    write_u16_le(&mut block, 0x0a, 0x8010);  // constant flags
    write_u32_le(&mut block, 0x0e, 0x0000008c);  // constant value
    write_u32_le(&mut block, 0x18, 0x00000001);  // constant
    write_u32_le(&mut block, 0x22, 0x00010001);  // constant pattern
    write_u32_le(&mut block, 0x25, 0x00000001);  // constant pattern, continued
    write_u32_le(&mut block, 0x28, 0x0a000001);  // constant
    write_u32_le(&mut block, 0x52, 0x00000418);  // release marker
    proof {
        assert(0x2201u16 as u8 == 0x01 && (0x2201u16 >> 8) as u8 == 0x22 && 0x8010u16 as u8 == 0x10
            && (0x8010u16 >> 8) as u8 == 0x80) by (bit_vector);
        assert(0x0000008cu32 as u8 == 0x8c && (0x0000008cu32 >> 8) as u8 == 0x00 && (0x0000008cu32
            >> 16) as u8 == 0x00 && (0x0000008cu32 >> 24) as u8 == 0x00) by (bit_vector);
        assert(0x00000001u32 as u8 == 0x01 && (0x00000001u32 >> 8) as u8 == 0x00 && (0x00000001u32
            >> 16) as u8 == 0x00 && (0x00000001u32 >> 24) as u8 == 0x00) by (bit_vector);
        assert(0x00010001u32 as u8 == 0x01 && (0x00010001u32 >> 8) as u8 == 0x00 && (0x00010001u32
            >> 16) as u8 == 0x01 && (0x00010001u32 >> 24) as u8 == 0x00) by (bit_vector);
        assert(0x0a000001u32 as u8 == 0x01 && (0x0a000001u32 >> 8) as u8 == 0x00 && (0x0a000001u32
            >> 16) as u8 == 0x00 && (0x0a000001u32 >> 24) as u8 == 0x0a) by (bit_vector);
        assert(0x00000418u32 as u8 == 0x18 && (0x00000418u32 >> 8) as u8 == 0x04 && (0x00000418u32
            >> 16) as u8 == 0x00 && (0x00000418u32 >> 24) as u8 == 0x00) by (bit_vector);
        assert(block@ =~= spec_archivelog_trail());
    }
    Ok(block)
}

} // verus!
