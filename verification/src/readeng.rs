//! Catalog-mediated read engine.
//!
//! A read request `(offset, size)` against an open catalog handle is turned
//! into a *plan*: a bounded list of catalog block reads, a flag for the
//! synthesized archive-log trailer block, a flag for the header fixup, and
//! the byte count to truncate to.  A driver executes the planned catalog
//! calls and hands the returned buffers back to [`proc_read_assemble`],
//! which is verified to produce exactly the bytes the plan describes.
use vstd::prelude::*;

use crate::error::AsmError;
use crate::header::{spec_fix_header, fix_header_block, HEADER_BLOCK_BYTES};

verus! {

/// File type tag of archive logs in the catalog.
pub const FILE_TYPE_ARCHIVELOG: u32 = 4;

/// File type tag of server parameter files, whose catalog blocks are
/// indexed from 1 rather than 0.
pub const FILE_TYPE_SPFILE: u32 = 13;

/// Block sizes at or above this are refused: the catalog's RAW output
/// buffer holds less than 32 KiB.
pub const MAX_BLOCK_SIZE: u32 = 32768;

/// Ceiling on the byte length of one catalog read call.
pub const READ_CHUNK_BYTES: u32 = 24576;

/// Length in bytes of the synthesized archive-log trailer block.
pub const TRAILER_BYTES: u32 = 512;

/// The byte the synthesized trailer block is filled with.
pub const TRAILER_FILL: u8 = 0xfe;

/// One catalog read call: `blocks` blocks starting at catalog block index
/// `block_index` (the per-file-type offset fix already applied).
pub struct ReadChunk {
    pub block_index: u64,
    pub blocks: u64,
}

impl View for ReadChunk {
    type V = (int, int);

    open spec fn view(&self) -> (int, int) {
        (self.block_index as int, self.blocks as int)
    }
}

/// Everything a driver must do for one read request.
pub struct ReadPlan {
    /// The catalog reads to issue, in order.
    pub chunks: Vec<ReadChunk>,
    /// Append the synthesized `0xFE`-filled trailer block after the chunks.
    pub add_trailer: bool,
    /// Apply the header fixup to the assembled buffer.
    pub fix_header: bool,
    /// Truncate the assembled buffer to this many bytes.
    pub truncate_to: u32,
}

impl View for ReadPlan {
    type V = (Seq<(int, int)>, bool, bool, int);

    open spec fn view(&self) -> (Seq<(int, int)>, bool, bool, int) {
        (
            self.chunks@.map_values(|c: ReadChunk| c@),
            self.add_trailer,
            self.fix_header,
            self.truncate_to as int,
        )
    }
}

/// The per-file-type catalog block offset fix: server parameter files are
/// indexed from block 1, everything else from block 0.
pub open spec fn spec_plan_fix(ft: int) -> int {
    if ft == FILE_TYPE_SPFILE as int {
        1
    } else {
        0
    }
}

/// Blocks per catalog read step: one block while the header block is in
/// range, else as many whole blocks as fit in 24 KiB (at least one).
pub open spec fn spec_plan_step(offset_blocks: int, bs: int) -> int {
    if offset_blocks == 0 {
        1
    } else {
        let s = READ_CHUNK_BYTES as int / bs;
        if s == 0 {
            1
        } else {
            s
        }
    }
}

/// The file's block count without the synthesized trailer block.
pub open spec fn spec_raw_blocks(size_fs: int, bs: int, ft: int) -> int {
    let sib = size_fs / bs;
    if ft == FILE_TYPE_ARCHIVELOG as int && sib > 0 {
        sib - 1
    } else {
        sib
    }
}

/// The block count one loop iteration reads, after the two clips: first to
/// the requested block count, then to the raw extent of the file.
pub open spec fn spec_chunk_amount(i: int, already: int, requested: int, raw: int, fix: int, step: int) -> int {
    let a0 = if already >= requested {
        0
    } else if already + step > requested {
        requested - already
    } else {
        step
    };
    if a0 == 0 {
        0
    } else if i + fix + a0 >= raw {
        if raw > i {
            raw - i
        } else {
            0
        }
    } else {
        a0
    }
}

/// The catalog reads issued from loop state `(i, already)` on: pairs of
/// (catalog block index, block count), skipping empty reads.
pub open spec fn spec_chunk_seq(
    i: int,
    bound: int,
    already: int,
    requested: int,
    raw: int,
    fix: int,
    step: int,
) -> Seq<(int, int)>
    decreases (if bound - i >= 0 { bound - i } else { 0 })
{
    if step < 1 || i >= bound {
        Seq::empty()
    } else {
        let a = spec_chunk_amount(i, already, requested, raw, fix, step);
        let rest = spec_chunk_seq(i + step, bound, already + a, requested, raw, fix, step);
        if a > 0 {
            seq![(i + fix, a)] + rest
        } else {
            rest
        }
    }
}

/// The block count accumulated when the loop starting at `(i, already)`
/// finishes.
pub open spec fn spec_chunk_total(
    i: int,
    bound: int,
    already: int,
    requested: int,
    raw: int,
    fix: int,
    step: int,
) -> int
    decreases (if bound - i >= 0 { bound - i } else { 0 })
{
    if step < 1 || i >= bound {
        already
    } else {
        let a = spec_chunk_amount(i, already, requested, raw, fix, step);
        spec_chunk_total(i + step, bound, already + a, requested, raw, fix, step)
    }
}

/// The plan for one catalog-mediated read request, or `None` where the read
/// is answered with an empty buffer (block size out of range, or an offset
/// beyond the last block).  All quantities are in the catalog's units:
/// `offset` and `requested` in bytes, `size_fs` the filesystem-visible size
/// in bytes (trailer block included for archive logs).
pub open spec fn spec_read_plan(
    offset: int,
    requested: int,
    bs: int,
    size_fs: int,
    ft: int,
) -> Option<(Seq<(int, int)>, bool, bool, int)> {
    if bs <= 0 || bs >= MAX_BLOCK_SIZE as int {
        None
    } else {
        let req = if requested > size_fs {
            size_fs
        } else {
            requested
        };
        let sib = size_fs / bs;
        let raw = spec_raw_blocks(size_fs, bs, ft);
        let ob = offset / bs;
        if ob > sib {
            None
        } else {
            let rb = (req + bs - 1) / bs;
            let fix = spec_plan_fix(ft);
            let step = spec_plan_step(ob, bs);
            let bound = if rb > fix {
                ob + rb - fix
            } else {
                ob
            };
            let chunks = spec_chunk_seq(ob, bound, 0, rb, raw, fix, step);
            let already = spec_chunk_total(ob, bound, 0, rb, raw, fix, step);
            let trailer = ft == FILE_TYPE_ARCHIVELOG as int && already < rb && ob + already == raw;
            let fixh = ft == FILE_TYPE_ARCHIVELOG as int && ob == 0;
            Some((chunks, trailer, fixh, req))
        }
    }
}

/// Computes the read plan for one request.  `None` means the request is
/// answered with an empty buffer.
pub fn proc_read_plan(
    offset: u64,
    requested_bytes: u32,
    block_size: u32,
    size_fs_bytes: u64,
    file_type: u32,
) -> (r: Option<ReadPlan>)
    requires
        size_fs_bytes < 0x8000_0000_0000_0000,
    ensures
        match spec_read_plan(
            offset as int,
            requested_bytes as int,
            block_size as int,
            size_fs_bytes as int,
            file_type as int,
        ) {
            None => r is None,
            Some(p) => r matches Some(plan) && plan@ == p,
        },
{
    if block_size == 0 || block_size >= MAX_BLOCK_SIZE {
        return None;
    }
    let bs: u64 = block_size as u64;
    let req: u32 = if requested_bytes as u64 > size_fs_bytes {
        size_fs_bytes as u32
    } else {
        requested_bytes
    };
    let size_in_blocks: u64 = size_fs_bytes / bs;
    let raw_blocks: u64 = if file_type == FILE_TYPE_ARCHIVELOG && size_in_blocks > 0 {
        size_in_blocks - 1
    } else {
        size_in_blocks
    };
    let offset_blocks: u64 = offset / bs;
    if offset_blocks > size_in_blocks {
        return None;
    }
    let requested_blocks: u64 = (req as u64 + bs - 1) / bs;
    let fix: u64 = if file_type == FILE_TYPE_SPFILE {
        1
    } else {
        0
    };
    let step: u64 = if offset_blocks == 0 {
        1
    } else {
        let s = READ_CHUNK_BYTES as u64 / bs;
        if s == 0 {
            1
        } else {
            s
        }
    };
    proof {
        assert(size_fs_bytes as int / bs as int <= size_fs_bytes as int) by (nonlinear_arith)
            requires
                bs as int >= 1,
                size_fs_bytes as int >= 0,
        ;
        assert((req as int + bs as int - 1) / bs as int <= req as int + 1) by (nonlinear_arith)
            requires
                bs as int >= 1,
                req as int >= 0,
        ;
    }
    let bound: u64 = if requested_blocks > fix {
        offset_blocks + requested_blocks - fix
    } else {
        offset_blocks
    };

    let ghost gi = offset_blocks as int;
    let ghost gbound = bound as int;
    let ghost grb = requested_blocks as int;
    let ghost graw = raw_blocks as int;
    let ghost gfix = fix as int;
    let ghost gstep = step as int;

    let mut chunks: Vec<ReadChunk> = Vec::new();
    let mut already: u64 = 0;
    let mut i: u64 = offset_blocks;
    while i < bound
        invariant
            1 <= gstep,
            step == gstep,
            fix == gfix,
            raw_blocks == graw,
            bound == gbound,
            requested_blocks == grb,
            gstep <= 0x1_0000_0000,
            gbound < 0x8000_0001_0000_0000,
            graw < 0x8000_0000_0000_0000,
            grb <= 0x1_0000_0000,
            gfix <= 1,
            offset_blocks as int <= i as int,
            already <= requested_blocks + fix,
            spec_chunk_seq(gi, gbound, 0, grb, graw, gfix, gstep) == chunks@.map_values(
                |c: ReadChunk| c@,
            ) + spec_chunk_seq(i as int, gbound, already as int, grb, graw, gfix, gstep),
            spec_chunk_total(gi, gbound, 0, grb, graw, gfix, gstep) == spec_chunk_total(
                i as int,
                gbound,
                already as int,
                grb,
                graw,
                gfix,
                gstep,
            ),
        decreases gbound + gstep - i,
    {
        let ghost i0 = i as int;
        let ghost al0 = already as int;
        let ghost pre = chunks@.map_values(|c: ReadChunk| c@);
        let a0: u64 = if already >= requested_blocks {
            0
        } else if already + step > requested_blocks {
            requested_blocks - already
        } else {
            step
        };
        let amount: u64 = if a0 == 0 {
            0
        } else if i + fix + a0 >= raw_blocks {
            if raw_blocks > i {
                raw_blocks - i
            } else {
                0
            }
        } else {
            a0
        };
        let ghost ga = amount as int;
        proof {
            assert(ga == spec_chunk_amount(i0, al0, grb, graw, gfix, gstep));
            assert(spec_chunk_seq(i0, gbound, al0, grb, graw, gfix, gstep) == (if ga > 0 {
                seq![(i0 + gfix, ga)] + spec_chunk_seq(
                    i0 + gstep,
                    gbound,
                    al0 + ga,
                    grb,
                    graw,
                    gfix,
                    gstep,
                )
            } else {
                spec_chunk_seq(i0 + gstep, gbound, al0 + ga, grb, graw, gfix, gstep)
            }));
            assert(spec_chunk_total(i0, gbound, al0, grb, graw, gfix, gstep) == spec_chunk_total(
                i0 + gstep,
                gbound,
                al0 + ga,
                grb,
                graw,
                gfix,
                gstep,
            ));
        }
        if amount > 0 {
            chunks.push(ReadChunk { block_index: i + fix, blocks: amount });
            proof {
                assert(chunks@.map_values(|c: ReadChunk| c@) =~= pre + seq![(i0 + gfix, ga)]);
                assert(pre + (seq![(i0 + gfix, ga)] + spec_chunk_seq(
                    i0 + gstep,
                    gbound,
                    al0 + ga,
                    grb,
                    graw,
                    gfix,
                    gstep,
                )) =~= (pre + seq![(i0 + gfix, ga)]) + spec_chunk_seq(
                    i0 + gstep,
                    gbound,
                    al0 + ga,
                    grb,
                    graw,
                    gfix,
                    gstep,
                ));
            }
        }
        already = already + amount;
        i = i + step;
    }
    let add_trailer = file_type == FILE_TYPE_ARCHIVELOG && already < requested_blocks
        && offset_blocks + already == raw_blocks;
    let fix_header = file_type == FILE_TYPE_ARCHIVELOG && offset_blocks == 0;
    Some(ReadPlan { chunks, add_trailer, fix_header, truncate_to: req })
}

/// The synthesized archive-log trailer block: 512 bytes of `0xFE`.
pub open spec fn spec_trailer() -> Seq<u8> {
    Seq::new(TRAILER_BYTES as nat, |k: int| TRAILER_FILL)
}

/// `s` cut down to at most its first `n` bytes.
pub open spec fn spec_take_at_most(s: Seq<u8>, n: int) -> Seq<u8> {
    if n < 0 {
        Seq::empty()
    } else if n < s.len() {
        s.subrange(0, n)
    } else {
        s
    }
}

/// The bytes a read returns, given the buffers the catalog handed back for
/// the planned chunks: their concatenation, the trailer block if planned,
/// the header fixup if planned (an error on a buffer shorter than one
/// block), truncated to the planned byte count.
pub open spec fn spec_assemble(
    datas: Seq<Seq<u8>>,
    add_trailer: bool,
    fix_header: bool,
    truncate_to: int,
) -> Result<Seq<u8>, AsmError> {
    let joined = datas.flatten() + if add_trailer {
        spec_trailer()
    } else {
        Seq::empty()
    };
    if fix_header {
        if joined.len() < HEADER_BLOCK_BYTES as int {
            Err(AsmError::HeaderTooShort)
        } else {
            Ok(spec_take_at_most(spec_fix_header(joined), truncate_to))
        }
    } else {
        Ok(spec_take_at_most(joined, truncate_to))
    }
}

/// Appends the synthesized trailer block.
fn push_trailer(buffer: &mut Vec<u8>)
    ensures
        final(buffer)@ == old(buffer)@ + spec_trailer(),
{
    let mut k: u32 = 0;
    while k < TRAILER_BYTES
        invariant
            k <= TRAILER_BYTES,
            buffer@ == old(buffer)@ + Seq::new(k as nat, |j: int| TRAILER_FILL),
        decreases TRAILER_BYTES - k,
    {
        buffer.push(TRAILER_FILL);
        k = k + 1;
        proof {
            assert(buffer@ =~= old(buffer)@ + Seq::new(k as nat, |j: int| TRAILER_FILL));
        }
    }
    proof {
        assert(buffer@ =~= old(buffer)@ + spec_trailer());
    }
}

/// Assembles the bytes of one read from the buffers the driver collected,
/// one buffer per planned chunk, in plan order.
pub fn proc_read_assemble(plan: &ReadPlan, chunk_data: &Vec<Vec<u8>>) -> (r: Result<
    Vec<u8>,
    AsmError,
>)
    ensures
        match spec_assemble(
            chunk_data.deep_view(),
            plan.add_trailer,
            plan.fix_header,
            plan.truncate_to as int,
        ) {
            Ok(s) => r matches Ok(v) && v@ == s,
            Err(e) => r matches Err(e2) && e2 == e,
        },
{
    let ghost datas = chunk_data.deep_view();
    let mut buffer: Vec<u8> = Vec::new();
    let mut idx: usize = 0;
    while idx < chunk_data.len()
        invariant
            idx <= chunk_data.len(),
            datas == chunk_data.deep_view(),
            datas.len() == chunk_data.len(),
            buffer@ == datas.take(idx as int).flatten(),
        decreases chunk_data.len() - idx,
    {
        buffer.extend_from_slice(chunk_data[idx].as_slice());
        proof {
            assert(datas.take(idx as int).push(datas[idx as int]) =~= datas.take(idx as int + 1));
            vstd::seq_lib::lemma_flatten_concat(datas.take(idx as int), seq![datas[idx as int]]);
            assert(datas.take(idx as int) + seq![datas[idx as int]] =~= datas.take(idx as int + 1));
            seq![datas[idx as int]].lemma_flatten_one_element();
            assert(chunk_data[idx as int]@ == datas[idx as int]);
        }
        idx = idx + 1;
    }
    proof {
        assert(datas.take(datas.len() as int) =~= datas);
    }
    if plan.add_trailer {
        push_trailer(&mut buffer);
    } else {
        proof {
            assert(buffer@ =~= datas.flatten() + Seq::<u8>::empty());
        }
    }
    if plan.fix_header {
        match fix_header_block(&mut buffer) {
            Ok(()) => {},
            Err(e) => {
                return Err(e);
            },
        }
    }
    let cap = plan.truncate_to as usize;
    if buffer.len() > cap {
        buffer.truncate(cap);
    }
    proof {
        let joined = datas.flatten() + if plan.add_trailer {
            spec_trailer()
        } else {
            Seq::<u8>::empty()
        };
        if plan.fix_header {
            assert(spec_take_at_most(spec_fix_header(joined), plan.truncate_to as int) =~= buffer@);
        } else {
            assert(spec_take_at_most(joined, plan.truncate_to as int) =~= buffer@);
        }
    }
    Ok(buffer)
}

} // verus!
