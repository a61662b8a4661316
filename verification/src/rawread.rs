//! Raw-device read engine.
//!
//! In raw mode an open file carries its extent map: the ordered list of
//! (disk key, allocation-unit offset) pairs and the map from disk keys to
//! block-device paths.  A read request is turned into a *plan*: the exact
//! device reads (path, byte offset, length) to perform, in ascending
//! allocation-unit order.  A driver performs them and hands the buffers to
//! [`read_raw_assemble`], which concatenates them and applies the header
//! fixup to reads of the first block of the file types that need it.
use vstd::prelude::*;

use crate::error::AsmError;
use crate::header::{spec_fix_header, fix_header_block, HEADER_BLOCK_BYTES};

verus! {

/// One entry of a file's extent map: the allocation unit lives on disk
/// `disk`, `au_offset` allocation units into it.
#[derive(Clone, Copy)]
pub struct AuEntry {
    pub disk: u32,
    pub au_offset: u32,
}

impl View for AuEntry {
    type V = (int, int);

    open spec fn view(&self) -> (int, int) {
        (self.disk as int, self.au_offset as int)
    }
}

/// One row of the device map: disk key to block-device path.
pub struct DiskDevice {
    pub disk: u32,
    pub path: String,
}

/// An open file in raw mode.
pub struct RawOpenFileHandle {
    pub file_size_bytes: u64,
    pub au_size: u32,
    pub file_type: String,
    pub au_list: Vec<AuEntry>,
    pub disk_list: Vec<DiskDevice>,
}

impl RawOpenFileHandle {
    /// What every raw handle satisfies: a positive allocation-unit size
    /// and a representable file size.
    pub open spec fn wf(&self) -> bool {
        &&& 1 <= self.au_size
        &&& self.file_size_bytes < 0x8000_0000_0000_0000
    }
}

/// One planned device read.
pub struct RawSegment {
    pub path: String,
    pub device_offset: u64,
    pub length: u32,
}

impl View for RawSegment {
    type V = (Seq<char>, int, int);

    open spec fn view(&self) -> (Seq<char>, int, int) {
        (self.path@, self.device_offset as int, self.length as int)
    }
}

/// The file types whose first block is rewritten on read.
pub open spec fn spec_is_magic_file_type(t: Seq<char>) -> bool {
    t == "ARCHIVELOG"@ || t == "DATAFILE"@ || t == "TEMPFILE"@ || t == "CONTROLFILE"@
}

/// Whether a file type name is one whose header block is rewritten.
pub fn is_magic_file_type(t: &String) -> (r: bool)
    ensures
        r == spec_is_magic_file_type(t@),
{
    let archivelog = String::from_str("ARCHIVELOG");
    let datafile = String::from_str("DATAFILE");
    let tempfile = String::from_str("TEMPFILE");
    let controlfile = String::from_str("CONTROLFILE");
    *t == archivelog || *t == datafile || *t == tempfile || *t == controlfile
}

/// The block-device path of a disk key: the first matching row of the
/// device map.
pub open spec fn spec_disk_path(disks: Seq<DiskDevice>, key: int) -> Option<Seq<char>>
    decreases disks.len(),
{
    if disks.len() == 0 {
        None
    } else if disks[0].disk == key {
        Some(disks[0].path@)
    } else {
        spec_disk_path(disks.drop_first(), key)
    }
}

/// Looks a disk key up in the device map.
pub fn lookup_disk(disks: &Vec<DiskDevice>, key: u32) -> (r: Option<String>)
    ensures
        match spec_disk_path(disks@, key as int) {
            None => r is None,
            Some(p) => r matches Some(s) && s@ == p,
        },
{
    proof {
        assert(disks@.skip(0) =~= disks@);
    }
    let mut i: usize = 0;
    while i < disks.len()
        invariant
            i <= disks@.len(),
            spec_disk_path(disks@, key as int) == spec_disk_path(
                disks@.skip(i as int),
                key as int,
            ),
        decreases disks@.len() - i,
    {
        proof {
            assert(disks@.skip(i as int)[0] == disks@[i as int]);
            assert(disks@.skip(i as int).drop_first() =~= disks@.skip(i as int + 1));
        }
        if disks[i].disk == key {
            return Some(disks[i].path.clone());
        }
        i = i + 1;
    }
    proof {
        assert(disks@.skip(i as int) =~= Seq::<DiskDevice>::empty());
    }
    None
}

/// The byte count a read is clipped to: what was asked, cut to the bytes
/// between the offset and the end of the file.
pub open spec fn spec_raw_clip(file_size: int, offset: int, requested: int) -> int {
    if offset >= file_size {
        0
    } else if requested <= file_size - offset {
        requested
    } else {
        file_size - offset
    }
}

/// Prepends already-planned segments to the outcome of the remaining walk.
pub open spec fn spec_seg_append(
    pre: Seq<(Seq<char>, int, int)>,
    r: Result<Seq<(Seq<char>, int, int)>, AsmError>,
) -> Result<Seq<(Seq<char>, int, int)>, AsmError> {
    match r {
        Ok(rest) => Ok(pre + rest),
        Err(e) => Err(e),
    }
}

/// The device reads of the walk from `au_index` on: each allocation unit
/// contributes at most one read of at most `au_size` bytes; the first unit
/// of the walk starts at the read offset within it; an index beyond the
/// extent map or a disk key missing from the device map is an error.
pub open spec fn spec_raw_segments(
    au_list: Seq<AuEntry>,
    disks: Seq<DiskDevice>,
    au_size: int,
    au_first: int,
    au_last: int,
    offset: int,
    size: int,
    au_index: int,
    bytes_read: int,
) -> Result<Seq<(Seq<char>, int, int)>, AsmError>
    decreases (if au_last + 1 - au_index >= 0 { au_last + 1 - au_index } else { 0 })
{
    if au_index > au_last {
        Ok(Seq::empty())
    } else {
        let first_byte = if au_index == au_first {
            offset % au_size
        } else {
            0
        };
        let len = if size - bytes_read < au_size {
            size - bytes_read
        } else {
            au_size
        };
        if len <= 0 {
            Ok(Seq::empty())
        } else if au_index >= au_list.len() {
            Err(AsmError::AuOutOfRange)
        } else {
            match spec_disk_path(disks, au_list[au_index].disk as int) {
                None => Err(AsmError::UnknownDisk),
                Some(p) => spec_seg_append(
                    seq![(p, au_list[au_index].au_offset * au_size + first_byte, len)],
                    spec_raw_segments(
                        au_list,
                        disks,
                        au_size,
                        au_first,
                        au_last,
                        offset,
                        size,
                        au_index + 1,
                        bytes_read + len,
                    ),
                ),
            }
        }
    }
}

/// The plan of one raw read: the request clipped to the file, then walked
/// allocation unit by allocation unit.
pub open spec fn spec_raw_plan(
    h: &RawOpenFileHandle,
    offset: int,
    requested: int,
) -> Result<Seq<(Seq<char>, int, int)>, AsmError> {
    let size = spec_raw_clip(h.file_size_bytes as int, offset, requested);
    let au_first = offset / h.au_size as int;
    let au_last = au_first + size / h.au_size as int;
    spec_raw_segments(
        h.au_list@,
        h.disk_list@,
        h.au_size as int,
        au_first,
        au_last,
        offset,
        size,
        au_first,
        0,
    )
}

/// Computes the device reads for one raw read request.
pub fn read_raw_plan(h: &RawOpenFileHandle, offset: u64, bytes_requested: u32) -> (r: Result<
    Vec<RawSegment>,
    AsmError,
>)
    requires
        h.wf(),
    ensures
        match spec_raw_plan(h, offset as int, bytes_requested as int) {
            Ok(segs) => r matches Ok(v) && v@.map_values(|s: RawSegment| s@) == segs,
            Err(e) => r matches Err(e2) && e2 == e,
        },
{
    let au: u64 = h.au_size as u64;
    let size: u64 = if offset >= h.file_size_bytes {
        0
    } else if bytes_requested as u64 <= h.file_size_bytes - offset {
        bytes_requested as u64
    } else {
        h.file_size_bytes - offset
    };
    let ghost gau = au as int;
    let ghost gsize = size as int;
    assert(gsize == spec_raw_clip(h.file_size_bytes as int, offset as int, bytes_requested as int));
    assert(gsize <= 0xffff_ffff);
    if size == 0 {
        let segs: Vec<RawSegment> = Vec::new();
        proof {
            assert(segs@.map_values(|s: RawSegment| s@) =~= Seq::<(Seq<char>, int, int)>::empty());
        }
        return Ok(segs);
    }
    assert(offset < h.file_size_bytes);
    proof {
        assert(offset as int / gau <= offset as int && gsize / gau <= gsize && offset as int / gau
            >= 0 && gsize / gau >= 0) by (nonlinear_arith)
            requires
                gau >= 1,
                offset as int >= 0,
                gsize >= 0,
        ;
    }
    let au_first: u64 = offset / au;
    let au_last: u64 = au_first + size / au;
    let ghost gfirst = au_first as int;
    let ghost glast = au_last as int;

    let mut segs: Vec<RawSegment> = Vec::new();
    let mut bytes_read: u64 = 0;
    let mut au_index: u64 = au_first;
    proof {
        assert(segs@.map_values(|s: RawSegment| s@) =~= Seq::<(Seq<char>, int, int)>::empty());
        assert(Seq::<(Seq<char>, int, int)>::empty() + spec_raw_segments(
            h.au_list@,
            h.disk_list@,
            gau,
            gfirst,
            glast,
            offset as int,
            gsize,
            gfirst,
            0,
        )->Ok_0 =~= spec_raw_segments(
            h.au_list@,
            h.disk_list@,
            gau,
            gfirst,
            glast,
            offset as int,
            gsize,
            gfirst,
            0,
        )->Ok_0);
    }
    while au_index <= au_last
        invariant
            h.wf(),
            au == h.au_size as u64,
            gau == au as int,
            gsize == size as int,
            gsize <= 0xffff_ffff,
            gfirst == au_first as int,
            glast == au_last as int,
            gfirst == offset as int / gau,
            glast == gfirst + gsize / gau,
            glast < 0x8000_0001_0000_0000,
            gfirst <= au_index as int,
            bytes_read <= size,
            spec_raw_plan(h, offset as int, bytes_requested as int) == spec_seg_append(
                segs@.map_values(|s: RawSegment| s@),
                spec_raw_segments(
                    h.au_list@,
                    h.disk_list@,
                    gau,
                    gfirst,
                    glast,
                    offset as int,
                    gsize,
                    au_index as int,
                    bytes_read as int,
                ),
            ),
        decreases glast + 1 - au_index,
    {
        let first_byte: u64 = if au_index == au_first {
            offset % au
        } else {
            0
        };
        let len: u64 = if size - bytes_read < au {
            size - bytes_read
        } else {
            au
        };
        let ghost pre = segs@.map_values(|s: RawSegment| s@);
        let ghost cur = spec_raw_segments(
            h.au_list@,
            h.disk_list@,
            gau,
            gfirst,
            glast,
            offset as int,
            gsize,
            au_index as int,
            bytes_read as int,
        );
        if len == 0 {
            proof {
                assert(cur == Ok::<Seq<(Seq<char>, int, int)>, AsmError>(Seq::empty()));
                assert(pre + Seq::<(Seq<char>, int, int)>::empty() =~= pre);
            }
            return Ok(segs);
        }
        if au_index >= h.au_list.len() as u64 {
            proof {
                assert(cur == Err::<Seq<(Seq<char>, int, int)>, AsmError>(AsmError::AuOutOfRange));
            }
            return Err(AsmError::AuOutOfRange);
        }
        let entry = h.au_list[au_index as usize];
        let path = match lookup_disk(&h.disk_list, entry.disk) {
            Some(p) => p,
            None => {
                proof {
                    assert(cur == Err::<Seq<(Seq<char>, int, int)>, AsmError>(
                        AsmError::UnknownDisk,
                    ));
                }
                return Err(AsmError::UnknownDisk);
            },
        };
        proof {
            vstd::arithmetic::mul::lemma_mul_upper_bound(
                entry.au_offset as int,
                0xffff_ffff,
                gau,
                0xffff_ffff,
            );
            vstd::arithmetic::mul::lemma_mul_nonnegative(entry.au_offset as int, gau);
            vstd::arithmetic::div_mod::lemma_mod_division_less_than_divisor(offset as int, gau);
        }
        let device_offset: u64 = entry.au_offset as u64 * au + first_byte;
        let seg = RawSegment { path, device_offset, length: len as u32 };
        let ghost segv = seg@;
        let ghost rest = spec_raw_segments(
            h.au_list@,
            h.disk_list@,
            gau,
            gfirst,
            glast,
            offset as int,
            gsize,
            au_index as int + 1,
            bytes_read as int + len as int,
        );
        segs.push(seg);
        proof {
            assert(cur == spec_seg_append(seq![segv], rest));
            assert(segs@.map_values(|s: RawSegment| s@) =~= pre + seq![segv]);
            if rest is Ok {
                assert((pre + seq![segv]) + rest->Ok_0 =~= pre + (seq![segv] + rest->Ok_0));
            }
        }
        bytes_read = bytes_read + len;
        au_index = au_index + 1;
    }
    proof {
        assert(spec_raw_segments(
            h.au_list@,
            h.disk_list@,
            gau,
            gfirst,
            glast,
            offset as int,
            gsize,
            au_index as int,
            bytes_read as int,
        ) == Ok::<Seq<(Seq<char>, int, int)>, AsmError>(Seq::empty()));
        assert(segs@.map_values(|s: RawSegment| s@) + Seq::<(Seq<char>, int, int)>::empty()
            =~= segs@.map_values(|s: RawSegment| s@));
    }
    Ok(segs)
}

/// The byte count a list of planned segments reads in all.
pub open spec fn spec_segments_total(segs: Seq<(Seq<char>, int, int)>) -> int
    decreases segs.len(),
{
    if segs.len() == 0 {
        0
    } else {
        segs[0].2 + spec_segments_total(segs.drop_first())
    }
}

/// From any walk state whose remaining allocation units can hold what is
/// still to read, the planned segments read exactly that many bytes.
proof fn lemma_raw_segments_total(
    au_list: Seq<AuEntry>,
    disks: Seq<DiskDevice>,
    au_size: int,
    au_first: int,
    au_last: int,
    offset: int,
    size: int,
    au_index: int,
    bytes_read: int,
)
    requires
        au_size >= 1,
        0 <= bytes_read <= size,
        size - bytes_read <= (au_last + 1 - au_index) * au_size,
    ensures
        match spec_raw_segments(
            au_list,
            disks,
            au_size,
            au_first,
            au_last,
            offset,
            size,
            au_index,
            bytes_read,
        ) {
            Ok(segs) => spec_segments_total(segs) == size - bytes_read,
            Err(_) => true,
        },
    decreases (if au_last + 1 - au_index >= 0 { au_last + 1 - au_index } else { 0 }),
{
    if au_index > au_last {
        assert((au_last + 1 - au_index) * au_size <= 0) by {
            vstd::arithmetic::mul::lemma_mul_inequality(au_last + 1 - au_index, 0, au_size);
            vstd::arithmetic::mul::lemma_mul_basics(au_size);
        }
    } else {
        let len = if size - bytes_read < au_size {
            size - bytes_read
        } else {
            au_size
        };
        if len <= 0 {
            assert(size - bytes_read == 0);
        } else if au_index >= au_list.len() {
        } else {
            match spec_disk_path(disks, au_list[au_index].disk as int) {
                None => {},
                Some(p) => {
                    assert(size - (bytes_read + len) <= (au_last + 1 - (au_index + 1)) * au_size)
                        by {
                        if len == au_size {
                            vstd::arithmetic::mul::lemma_mul_is_distributive_sub_other_way(
                                au_size,
                                au_last + 1 - au_index,
                                1,
                            );
                            vstd::arithmetic::mul::lemma_mul_basics(au_size);
                        } else {
                            vstd::arithmetic::mul::lemma_mul_nonnegative(
                                au_last - au_index,
                                au_size,
                            );
                        }
                    }
                    lemma_raw_segments_total(
                        au_list,
                        disks,
                        au_size,
                        au_first,
                        au_last,
                        offset,
                        size,
                        au_index + 1,
                        bytes_read + len,
                    );
                    let first_byte = if au_index == au_first {
                        offset % au_size
                    } else {
                        0
                    };
                    let head = (
                        p,
                        au_list[au_index].au_offset * au_size + first_byte,
                        len,
                    );
                    let rest = spec_raw_segments(
                        au_list,
                        disks,
                        au_size,
                        au_first,
                        au_last,
                        offset,
                        size,
                        au_index + 1,
                        bytes_read + len,
                    );
                    if rest is Ok {
                        let segs = seq![head] + rest->Ok_0;
                        assert(segs[0] == head);
                        assert(segs.drop_first() =~= rest->Ok_0);
                    }
                },
            }
        }
    }
}

/// Size agreement on the raw path: wherever the plan succeeds, its
/// segments read exactly the requested bytes, cut to what lies between
/// the offset and the end of the file.  So sequential raw reads from
/// offset 0 obtain `file_size_bytes` bytes in all, and every read at or
/// past the end plans nothing.
pub proof fn lemma_raw_plan_total(h: &RawOpenFileHandle, offset: int, requested: int)
    requires
        h.wf(),
        offset >= 0,
        requested >= 0,
    ensures
        match spec_raw_plan(h, offset, requested) {
            Ok(segs) => spec_segments_total(segs) == spec_raw_clip(
                h.file_size_bytes as int,
                offset,
                requested,
            ),
            Err(_) => true,
        },
{
    let au = h.au_size as int;
    let size = spec_raw_clip(h.file_size_bytes as int, offset, requested);
    let au_first = offset / au;
    let au_last = au_first + size / au;
    vstd::arithmetic::div_mod::lemma_fundamental_div_mod(size, au);
    vstd::arithmetic::div_mod::lemma_mod_division_less_than_divisor(size, au);
    assert((au_last + 1 - au_first) * au == (size / au) * au + au) by {
        vstd::arithmetic::mul::lemma_mul_is_distributive_add_other_way(au, size / au, 1);
        vstd::arithmetic::mul::lemma_mul_basics(au);
    }
    assert((size / au) * au == au * (size / au)) by {
        vstd::arithmetic::mul::lemma_mul_is_commutative(size / au, au);
    }
    lemma_raw_segments_total(
        h.au_list@,
        h.disk_list@,
        au,
        au_first,
        au_last,
        offset,
        size,
        au_first,
        0,
    );
}

/// Concatenates the device buffers of one raw read and rewrites the
/// header block when the read starts at offset 0 of a file type that
/// carries one.  A header shorter than one block is a format error.
pub fn read_raw_assemble(buffers: &Vec<Vec<u8>>, offset: u64, file_type: &String) -> (r: Result<
    Vec<u8>,
    AsmError,
>)
    ensures
        ({
            let joined = buffers.deep_view().flatten();
            if offset == 0 && spec_is_magic_file_type(file_type@) {
                if joined.len() < HEADER_BLOCK_BYTES {
                    r matches Err(e) && e == AsmError::HeaderTooShort
                } else {
                    r matches Ok(v) && v@ == spec_fix_header(joined)
                }
            } else {
                r matches Ok(v) && v@ == joined
            }
        }),
{
    let ghost datas = buffers.deep_view();
    let mut buffer: Vec<u8> = Vec::new();
    let mut idx: usize = 0;
    while idx < buffers.len()
        invariant
            idx <= buffers.len(),
            datas == buffers.deep_view(),
            datas.len() == buffers.len(),
            buffer@ == datas.take(idx as int).flatten(),
        decreases buffers.len() - idx,
    {
        buffer.extend_from_slice(buffers[idx].as_slice());
        proof {
            assert(datas.take(idx as int).push(datas[idx as int]) =~= datas.take(idx as int + 1));
            vstd::seq_lib::lemma_flatten_concat(datas.take(idx as int), seq![datas[idx as int]]);
            assert(datas.take(idx as int) + seq![datas[idx as int]] =~= datas.take(idx as int + 1));
            seq![datas[idx as int]].lemma_flatten_one_element();
            assert(buffers[idx as int]@ == datas[idx as int]);
        }
        idx = idx + 1;
    }
    proof {
        assert(datas.take(datas.len() as int) =~= datas);
    }
    if offset == 0 && is_magic_file_type(file_type) {
        match fix_header_block(&mut buffer) {
            Ok(()) => {},
            Err(e) => {
                return Err(e);
            },
        }
    }
    Ok(buffer)
}

} // verus!
