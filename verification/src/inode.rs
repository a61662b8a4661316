//! Inode codec: a catalog location is flattened into one 64-bit inode.
//!
//! Layout from the most significant bit down:
//!
//! ```text
//! +---------+--------------------------+--------------------------+
//! | group#  | entry_number (24 bits)   | alias_index (32 bits)    |
//! |  8 bits |                          |                          |
//! +---------+--------------------------+--------------------------+
//! ```
//!
//! The top 32 bits, `(group << 24) | entry`, form the *reference index*.
//! A volume-group directory is marked by entry number 0 together with the
//! sentinel alias index `0xFFFF_FFFF`.  The inode value 1 is reserved by
//! callers for the filesystem root and is never produced here.
use vstd::prelude::*;

verus! {

/// Sentinel entry number used when an inode addresses a whole volume group.
pub const ENTRY_ROOT: u32 = 0x000000;

/// Sentinel alias index that marks a volume-group directory inode.
pub const ALIAS_FOR_DG: u32 = 0xffff_ffff;

/// A 64-bit inode packing (group number, entry number, alias index).
#[derive(Clone, Copy, Debug)]
pub struct Inode(u64);

/// The packed inode value for a (reference index, alias index) pair.
pub open spec fn spec_from_alias(reference_index: u32, alias_index: u32) -> u64 {
    ((reference_index as u64) << 32) | (alias_index as u64)
}

/// The reference index held in the top 32 bits of an inode.
pub open spec fn spec_reference_index(ino: u64) -> u32 {
    (ino >> 32) as u32
}

/// The alias index held in the low 32 bits of an inode.
pub open spec fn spec_alias_index(ino: u64) -> u32 {
    ino as u32
}

/// The group number held in the top 8 bits of an inode.
pub open spec fn spec_group_number(ino: u64) -> u8 {
    (ino >> 56) as u8
}

/// The entry number held in bits 32..56 of an inode.
pub open spec fn spec_entry_number(ino: u64) -> u32 {
    ((ino >> 32) as u32) & 0x00ff_ffff
}

/// The reference index of a group directory: group number in the top 8 of
/// 32 bits, entry number 0.
pub open spec fn spec_group_reference_index(group_number: u8) -> u32 {
    ((group_number as u32) << 24) | ENTRY_ROOT
}

/// Whether an inode addresses a volume-group directory: entry number 0 and
/// the sentinel alias index.
pub open spec fn spec_is_disk_group(ino: u64) -> bool {
    spec_alias_index(ino) == ALIAS_FOR_DG && spec_entry_number(ino) == ENTRY_ROOT
}

impl View for Inode {
    type V = u64;

    closed spec fn view(&self) -> u64 {
        self.0
    }
}

impl Inode {
    /// Wraps a raw inode value received from the kernel bridge.
    pub fn from_ino(value: u64) -> (r: Inode)
        ensures
            r@ == value,
    {
        Inode(value)
    }

    /// Packs a catalog (reference index, alias index) pair into an inode.
    pub fn from_alias(reference_index: u32, alias_index: u32) -> (r: Inode)
        ensures
            r@ == spec_from_alias(reference_index, alias_index),
    {
        Inode(((reference_index as u64) << 32) | (alias_index as u64))
    }

    /// The inode of the directory for volume group `group_number`.
    pub fn from_group_number(group_number: u8) -> (r: Inode)
        ensures
            r@ == spec_from_alias(spec_group_reference_index(group_number), ALIAS_FOR_DG),
            spec_is_disk_group(r@),
            spec_group_number(r@) == group_number,
    {
        let entry_number: u32 = ENTRY_ROOT;
        let reference_index: u32 = ((group_number as u32) << 24) | entry_number;
        let alias_index: u32 = ALIAS_FOR_DG;
        proof {
            lemma_alias_round_trip(reference_index, alias_index);
            lemma_group_reference_round_trip(group_number, ENTRY_ROOT);
        }
        Inode::from_alias(reference_index, alias_index)
    }

    /// The reference index held in the top 32 bits.
    pub fn get_reference_index(&self) -> (r: u32)
        ensures
            r == spec_reference_index(self@),
    {
        (self.0 >> 32) as u32
    }

    /// The alias index held in the low 32 bits.
    pub fn get_alias_index(&self) -> (r: u32)
        ensures
            r == spec_alias_index(self@),
    {
        self.0 as u32
    }

    /// The group number held in the top 8 bits.
    pub fn _get_group_number(&self) -> (r: u8)
        ensures
            r == spec_group_number(self@),
    {
        (self.0 >> 56) as u8
    }

    /// The entry number held in bits 32..56.
    pub fn _get_entry_number(&self) -> (r: u32)
        ensures
            r == spec_entry_number(self@),
    {
        (self.0 >> 32) as u32 & 0x00ff_ffff
    }

    /// The packed 64-bit value, as handed to the kernel bridge.
    pub fn get_ino(&self) -> (r: u64)
        ensures
            r == self@,
    {
        self.0
    }

    /// Whether this inode addresses a volume-group directory.
    pub fn _is_disk_group(&self) -> (r: bool)
        ensures
            r == spec_is_disk_group(self@),
    {
        self.get_alias_index() == ALIAS_FOR_DG && self._get_entry_number() == ENTRY_ROOT
    }
}

/// Packing a (reference index, alias index) pair and reading the two halves
/// back yields the pair unchanged.
pub proof fn lemma_alias_round_trip(reference_index: u32, alias_index: u32)
    ensures
        spec_reference_index(spec_from_alias(reference_index, alias_index)) == reference_index,
        spec_alias_index(spec_from_alias(reference_index, alias_index)) == alias_index,
{
    assert((((reference_index as u64) << 32) | (alias_index as u64)) >> 32
        == reference_index as u64) by (bit_vector);
    assert(((((reference_index as u64) << 32) | (alias_index as u64)) as u32)
        == alias_index) by (bit_vector);
}

/// Packing a group number and an entry number below `2^24` into a reference
/// index and reading them back yields both unchanged.
pub proof fn lemma_group_reference_round_trip(group_number: u8, entry_number: u32)
    requires
        entry_number < 0x100_0000,
    ensures
        forall|alias_index: u32|
            {
                let ino = #[trigger] spec_from_alias(
                    ((group_number as u32) << 24) | entry_number,
                    alias_index,
                );
                spec_group_number(ino) == group_number && spec_entry_number(ino) == entry_number
            },
{
    assert forall|alias_index: u32|
        {
            let ino = #[trigger] spec_from_alias(
                ((group_number as u32) << 24) | entry_number,
                alias_index,
            );
            spec_group_number(ino) == group_number && spec_entry_number(ino) == entry_number
        } by {
        let g = group_number;
        let e = entry_number;
        let a = alias_index;
        assert((((((g as u32) << 24) | e) as u64) << 32 | (a as u64)) >> 56 == g as u64
            && ((((((g as u32) << 24) | e) as u64) << 32 | (a as u64)) >> 32) as u32 & 0x00ff_ffff
            == e) by (bit_vector)
            requires
                e < 0x100_0000,
        ;
    }
}

/// Round trip of the full triple: decoding the inode packed from
/// `(g, e, a)` with `e < 2^24` yields `(g, e, a)` again.
pub proof fn lemma_inode_round_trip(g: u8, e: u32, a: u32)
    requires
        e < 0x100_0000,
    ensures
        spec_group_number(spec_from_alias(((g as u32) << 24) | e, a)) == g,
        spec_entry_number(spec_from_alias(((g as u32) << 24) | e, a)) == e,
        spec_alias_index(spec_from_alias(((g as u32) << 24) | e, a)) == a,
{
    lemma_group_reference_round_trip(g, e);
    lemma_alias_round_trip(((g as u32) << 24) | e, a);
    assert((((g as u32) << 24) | e) as u32 as u64 == ((g as u32) << 24) | e);
}

/// The reverse direction: every 64-bit value is the packing of the two
/// halves it decodes to, and its reference index is the packing of its
/// group and entry numbers.
pub proof fn lemma_inode_encode_decode(ino: u64)
    ensures
        spec_from_alias(spec_reference_index(ino), spec_alias_index(ino)) == ino,
        spec_reference_index(ino) == ((spec_group_number(ino) as u32) << 24) | spec_entry_number(
            ino,
        ),
{
    assert(((((ino >> 32) as u32) as u64) << 32) | ((ino as u32) as u64) == ino) by (bit_vector);
    assert((ino >> 32) as u32 == (((ino >> 56) as u8 as u32) << 24) | (((ino >> 32) as u32)
        & 0x00ff_ffff)) by (bit_vector);
}

} // verus!
