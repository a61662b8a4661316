//! Semantic model of the catalog-mediated read path.
//!
//! The planner and assembler in [`crate::readeng`] are exact down to the
//! loop they implement.  This module relates that loop to what a reader
//! cares about: when every planned catalog call returns the right slice of
//! the file's raw content, the assembled bytes are a window of the
//! *effective file* — the raw content with its header fixed up, followed by
//! the synthesized trailer block for archive logs.  The laws about reads
//! (determinism, prefix consistency, size agreement, the trailer bytes, the
//! chunk-size ceiling, and the server-parameter-file offset fix) are proved
//! here from that relation.
use vstd::prelude::*;

use crate::error::AsmError;
use crate::header::spec_fix_header;
use crate::readeng::{
    spec_read_plan, spec_plan_fix, spec_plan_step, spec_raw_blocks, spec_chunk_seq,
    spec_chunk_total, spec_chunk_amount, spec_assemble, spec_trailer, spec_take_at_most,
    FILE_TYPE_ARCHIVELOG, FILE_TYPE_SPFILE, MAX_BLOCK_SIZE, READ_CHUNK_BYTES, TRAILER_FILL,
};

verus! {

/// The buffers the catalog returns for the planned chunks when the file's
/// raw content is `content`: the chunk at catalog block `b` for `n` blocks
/// yields content bytes `[(b - fix) * bs, (b - fix + n) * bs)`.
pub open spec fn spec_chunk_datas(
    content: Seq<u8>,
    chunks: Seq<(int, int)>,
    bs: int,
    fix: int,
) -> Seq<Seq<u8>> {
    chunks.map_values(|c: (int, int)| content.subrange((c.0 - fix) * bs, (c.0 - fix + c.1) * bs))
}

/// The whole catalog-mediated read path on the model: plan the request,
/// let the catalog answer every chunk exactly, assemble.  `None` plans
/// stand for the empty reply.
pub open spec fn spec_catalog_read(
    content: Seq<u8>,
    offset: int,
    requested: int,
    bs: int,
    size_fs: int,
    ft: int,
) -> Result<Seq<u8>, AsmError> {
    match spec_read_plan(offset, requested, bs, size_fs, ft) {
        None => Ok(Seq::empty()),
        Some(p) => spec_assemble(
            spec_chunk_datas(content, p.0, bs, spec_plan_fix(ft)),
            p.1,
            p.2,
            p.3,
        ),
    }
}

/// Well-formedness of a catalog handle in the model: a representable block
/// size, a file size in whole blocks, and raw content of exactly the raw
/// block count.  Archive logs carry their 512-byte trailer inside
/// `size_fs`, so their block size is pinned to 512 and they hold at least
/// one raw block.
pub open spec fn spec_catalog_wf(content: Seq<u8>, bs: int, size_fs: int, ft: int) -> bool {
    &&& 1 <= bs < MAX_BLOCK_SIZE as int
    &&& 0 <= size_fs < 0x8000_0000_0000_0000
    &&& size_fs % bs == 0
    &&& ft != FILE_TYPE_SPFILE as int
    &&& (ft == FILE_TYPE_ARCHIVELOG as int ==> bs == 512 && size_fs >= 1024)
    &&& content.len() == spec_raw_blocks(size_fs, bs, ft) * bs
}

/// The file as the filesystem shows it: for archive logs the raw content
/// with the header fixup applied and the trailer block appended, for every
/// other type the raw content itself.
pub open spec fn spec_effective_file(content: Seq<u8>, ft: int) -> Seq<u8> {
    if ft == FILE_TYPE_ARCHIVELOG as int {
        spec_fix_header(content) + spec_trailer()
    } else {
        content
    }
}

/// The window `[offset, offset + requested)` of `e`, clamped to `e`.
pub open spec fn spec_file_window(e: Seq<u8>, offset: int, requested: int) -> Seq<u8> {
    let lo = if offset < e.len() {
        offset
    } else {
        e.len() as int
    };
    let hi = if offset + requested < e.len() {
        offset + requested
    } else {
        e.len() as int
    };
    if hi < lo {
        Seq::empty()
    } else {
        e.subrange(lo, hi)
    }
}

/// The block count the loop consumes from state `(i, already)` on, when no
/// offset fix is in play: what is still requested, cut to the raw extent.
pub open spec fn spec_cover_blocks(i: int, already: int, requested: int, raw: int) -> int {
    let m = if requested - already <= raw - i {
        requested - already
    } else {
        raw - i
    };
    if m >= 0 {
        m
    } else {
        0
    }
}

/// Once the loop counter has passed the raw extent, no further chunk is
/// emitted.
pub proof fn lemma_chunk_seq_past_raw_empty(
    i: int,
    bound: int,
    already: int,
    requested: int,
    raw: int,
    fix: int,
    step: int,
)
    requires
        i >= raw,
        fix >= 0,
        step >= 1,
    ensures
        spec_chunk_seq(i, bound, already, requested, raw, fix, step) == Seq::<(int, int)>::empty(),
        spec_chunk_total(i, bound, already, requested, raw, fix, step) == already,
    decreases (if bound - i >= 0 { bound - i } else { 0 }),
{
    if i < bound {
        assert(spec_chunk_amount(i, already, requested, raw, fix, step) == 0);
        lemma_chunk_seq_past_raw_empty(i + step, bound, already, requested, raw, fix, step);
    }
}

/// The first chunk, where there is one, starts at the loop's first block
/// index with the offset fix applied.
pub proof fn lemma_chunk_seq_first_index(
    i: int,
    bound: int,
    already: int,
    requested: int,
    raw: int,
    fix: int,
    step: int,
)
    requires
        0 <= already < requested,
        fix >= 0,
        step >= 1,
    ensures
        spec_chunk_seq(i, bound, already, requested, raw, fix, step).len() > 0
            ==> spec_chunk_seq(i, bound, already, requested, raw, fix, step)[0] == (
        i + fix,
        spec_chunk_amount(i, already, requested, raw, fix, step),
        ),
{
    if i < bound {
        let a = spec_chunk_amount(i, already, requested, raw, fix, step);
        if a == 0 {
            assert(i >= raw);
            lemma_chunk_seq_past_raw_empty(i + step, bound, already, requested, raw, fix, step);
        }
    }
}

/// Every chunk reads at most `step + fix` blocks, and at most `step`
/// blocks where no offset fix is in play.
pub proof fn lemma_chunk_seq_amount_bound(
    i: int,
    bound: int,
    already: int,
    requested: int,
    raw: int,
    fix: int,
    step: int,
)
    requires
        fix >= 0,
        step >= 1,
    ensures
        forall|k: int|
            0 <= k < spec_chunk_seq(i, bound, already, requested, raw, fix, step).len()
                ==> (#[trigger] spec_chunk_seq(i, bound, already, requested, raw, fix, step)[k]).1
                <= step + fix && spec_chunk_seq(i, bound, already, requested, raw, fix, step)[k].0
                >= i + fix,
    decreases (if bound - i >= 0 { bound - i } else { 0 }),
{
    let s = spec_chunk_seq(i, bound, already, requested, raw, fix, step);
    if i < bound {
        let a = spec_chunk_amount(i, already, requested, raw, fix, step);
        let rest = spec_chunk_seq(i + step, bound, already + a, requested, raw, fix, step);
        lemma_chunk_seq_amount_bound(i + step, bound, already + a, requested, raw, fix, step);
        assert forall|k: int| 0 <= k < s.len() implies (#[trigger] s[k]).1 <= step + fix && s[k].0
            >= i + fix by {
            if a > 0 {
                if k > 0 {
                    assert(s[k] == rest[k - 1]);
                }
            } else {
                assert(s[k] == rest[k]);
            }
        }
    }
}

/// The covering lemma: from any loop state the emitted chunks, answered
/// exactly from the raw content, concatenate to one contiguous slice of
/// it, and the accumulated block count is the cover.  Holds for the states
/// the loop can reach (the three-way disjunct below) when no offset fix is
/// in play.
pub proof fn lemma_chunk_cover(
    content: Seq<u8>,
    i: int,
    bound: int,
    already: int,
    requested: int,
    raw: int,
    step: int,
    bs: int,
)
    requires
        step >= 1,
        bs >= 1,
        0 <= i,
        0 <= already <= requested,
        0 <= raw,
        content.len() == raw * bs,
        bound - i <= requested - already,
        bound - i == requested - already || already == requested || i >= raw,
    ensures
        ({
            let cov = spec_cover_blocks(i, already, requested, raw);
            let lo = if i <= raw {
                i * bs
            } else {
                raw * bs
            };
            spec_chunk_datas(
                content,
                spec_chunk_seq(i, bound, already, requested, raw, 0, step),
                bs,
                0,
            ).flatten() == content.subrange(lo, lo + cov * bs)
        }),
        spec_chunk_total(i, bound, already, requested, raw, 0, step) == already
            + spec_cover_blocks(i, already, requested, raw),
    decreases (if bound - i >= 0 { bound - i } else { 0 }),
{
    let cov = spec_cover_blocks(i, already, requested, raw);
    let lo = if i <= raw {
        i * bs
    } else {
        raw * bs
    };
    let s = spec_chunk_seq(i, bound, already, requested, raw, 0, step);
    vstd::arithmetic::mul::lemma_mul_nonnegative(i, bs);
    vstd::arithmetic::mul::lemma_mul_nonnegative(raw, bs);
    if i <= raw {
        vstd::arithmetic::mul::lemma_mul_inequality(i, raw, bs);
    }
    if i >= bound {
        assert(cov == 0);
        assert(s == Seq::<(int, int)>::empty());
        assert(spec_chunk_datas(content, s, bs, 0) =~= Seq::<Seq<u8>>::empty());
        assert(content.subrange(lo, lo) =~= Seq::<u8>::empty());
    } else {
        let remaining = requested - already;
        assert(remaining >= bound - i >= 1);
        let a0 = if already + step > requested {
            requested - already
        } else {
            step
        };
        let a = spec_chunk_amount(i, already, requested, raw, 0, step);
        let rest = spec_chunk_seq(i + step, bound, already + a, requested, raw, 0, step);
        lemma_chunk_cover(content, i + step, bound, already + a, requested, raw, step, bs);
        let cov2 = spec_cover_blocks(i + step, already + a, requested, raw);
        let lo2 = if i + step <= raw {
            (i + step) * bs
        } else {
            raw * bs
        };
        if a == 0 {
            assert(i >= raw || already + a0 > requested || a0 == 0);
            assert(i >= raw);
            assert(s == rest);
            assert(cov == 0 && cov2 == 0);
            assert(lo == raw * bs && lo2 == raw * bs);
        } else {
            assert(s == seq![(i, a)] + rest);
            assert(i < raw);
            assert(lo == i * bs);
            let head = content.subrange(i * bs, (i + a) * bs);
            assert(spec_chunk_datas(content, s, bs, 0) =~= seq![head] + spec_chunk_datas(
                content,
                rest,
                bs,
                0,
            ));
            vstd::seq_lib::lemma_flatten_concat(
                seq![head],
                spec_chunk_datas(content, rest, bs, 0),
            );
            seq![head].lemma_flatten_one_element();
            assert(spec_chunk_datas(content, s, bs, 0).flatten() == head + spec_chunk_datas(
                content,
                rest,
                bs,
                0,
            ).flatten());
            vstd::arithmetic::mul::lemma_mul_is_distributive_add_other_way(bs, i, a);
            vstd::arithmetic::mul::lemma_mul_inequality(i + a, raw, bs);
            // The three ways the iteration can end: a full step, the last
            // requested blocks, or the cut to the raw extent.
            if i + a0 >= raw {
                // cut to the raw extent: a == raw - i, nothing follows
                assert(a == raw - i);
                assert(i + step >= raw);
                assert(cov2 == 0);
                assert(cov == a);
                assert(content.subrange(lo2, lo2 + 0) =~= Seq::<u8>::empty());
                assert((i + a) * bs == raw * bs);
                assert(head + Seq::<u8>::empty() =~= head);
                assert(spec_chunk_datas(content, s, bs, 0).flatten() =~= content.subrange(
                    lo,
                    lo + cov * bs,
                ));
            } else {
                assert(a == a0);
                assert(i + a < raw);
                if a0 == step {
                    // a full step: the rest continues at i + step == i + a
                    vstd::arithmetic::mul::lemma_mul_is_distributive_add_other_way(
                        bs,
                        i + a,
                        cov2,
                    );
                    vstd::arithmetic::mul::lemma_mul_inequality(i + a + cov2, raw, bs);
                    assert(cov == a + cov2);
                    assert(lo2 == (i + a) * bs);
                    assert((i + a + cov2) * bs == (i + a) * bs + cov2 * bs);
                    assert((i + a) * bs == i * bs + a * bs);
                    assert(lo + cov * bs == (i + a + cov2) * bs) by {
                        vstd::arithmetic::mul::lemma_mul_is_distributive_add_other_way(
                            bs,
                            a,
                            cov2,
                        );
                    }
                    assert(head + content.subrange(lo2, lo2 + cov2 * bs) =~= content.subrange(
                        lo,
                        lo + cov * bs,
                    ));
                } else {
                    // the last requested blocks: already reaches requested
                    assert(a == remaining);
                    assert(already + a == requested);
                    assert(cov2 == 0);
                    assert(cov == a);
                    assert(content.subrange(lo2, lo2 + 0) =~= Seq::<u8>::empty());
                    assert(head + Seq::<u8>::empty() =~= head);
                    assert(spec_chunk_datas(content, s, bs, 0).flatten() =~= content.subrange(
                        lo,
                        lo + cov * bs,
                    ));
                }
            }
        }
    }
}

/// Bounds of the rounded-up quotient `(x + d - 1) / d`.
proof fn lemma_ceil_div_bounds(x: int, d: int)
    requires
        x >= 0,
        d >= 1,
    ensures
        ({
            let q = (x + d - 1) / d;
            &&& q >= 0
            &&& q * d >= x
            &&& (q - 1) * d < x
            &&& (x == 0 ==> q == 0)
            &&& (x >= 1 ==> q >= 1)
        }),
{
    let q = (x + d - 1) / d;
    vstd::arithmetic::div_mod::lemma_fundamental_div_mod(x + d - 1, d);
    vstd::arithmetic::div_mod::lemma_mod_division_less_than_divisor(x + d - 1, d);
    let rm = (x + d - 1) % d;
    assert(x + d - 1 == d * q + rm);
    assert(0 <= rm < d);
    vstd::arithmetic::div_mod::lemma_div_pos_is_pos(x + d - 1, d);
    assert(q >= 0);
    assert(q * d == d * q) by {
        vstd::arithmetic::mul::lemma_mul_is_commutative(q, d);
    }
    assert(d * q == x + d - 1 - rm);
    assert(q * d >= x);
    assert((q - 1) * d == q * d - d) by {
        vstd::arithmetic::mul::lemma_mul_is_distributive_sub_other_way(d, q, 1);
        vstd::arithmetic::mul::lemma_mul_basics(d);
    }
    assert((q - 1) * d < x);
    if x >= 1 && q == 0 {
        assert(rm == x + d - 1);
        assert(false);
    }
    if x == 0 && q >= 1 {
        assert(1 * d <= q * d) by {
            vstd::arithmetic::mul::lemma_mul_inequality(1, q, d);
        }
        assert(1 * d == d) by {
            vstd::arithmetic::mul::lemma_mul_basics(d);
        }
        assert(false);
    }
}

/// A size in whole blocks divides back exactly.
proof fn lemma_exact_div(x: int, d: int)
    requires
        x >= 0,
        d >= 1,
        x % d == 0,
    ensures
        (x / d) * d == x,
        x / d >= 0,
{
    vstd::arithmetic::div_mod::lemma_fundamental_div_mod(x, d);
    vstd::arithmetic::div_mod::lemma_div_pos_is_pos(x, d);
    vstd::arithmetic::mul::lemma_mul_is_commutative(x / d, d);
}

/// The central theorem of the catalog read path: on a well-formed handle,
/// with the catalog answering every planned chunk exactly from the file's
/// raw content, a read at a block-aligned offset returns precisely the
/// requested window of the effective file.
#[verifier::rlimit(100)]
pub proof fn lemma_catalog_read_window(
    content: Seq<u8>,
    offset: int,
    requested: int,
    bs: int,
    size_fs: int,
    ft: int,
)
    requires
        spec_catalog_wf(content, bs, size_fs, ft),
        offset >= 0,
        offset % bs == 0,
        requested >= 0,
        ft == FILE_TYPE_ARCHIVELOG as int && offset == 0 ==> requested >= 1,
    ensures
        spec_catalog_read(content, offset, requested, bs, size_fs, ft) == Ok::<Seq<u8>, AsmError>(
            spec_file_window(spec_effective_file(content, ft), offset, requested),
        ),
{
    let e = spec_effective_file(content, ft);
    let fta = FILE_TYPE_ARCHIVELOG as int;
    let sib = size_fs / bs;
    let raw = spec_raw_blocks(size_fs, bs, ft);
    let ob = offset / bs;
    let req = if requested > size_fs {
        size_fs
    } else {
        requested
    };
    lemma_exact_div(size_fs, bs);
    lemma_exact_div(offset, bs);
    assert(sib * bs == size_fs);
    assert(ob * bs == offset);
    if ft == fta {
        assert(bs == 512 && size_fs >= 1024);
        assert(sib >= 2) by {
            if sib <= 1 {
                vstd::arithmetic::mul::lemma_mul_inequality(sib, 1, bs);
            }
        }
        assert(raw == sib - 1);
        assert(raw * bs == size_fs - bs) by {
            vstd::arithmetic::mul::lemma_mul_is_distributive_sub_other_way(bs, sib, 1);
            vstd::arithmetic::mul::lemma_mul_basics(bs);
        }
        assert(content.len() == size_fs - 512);
        assert(e.len() == size_fs);
    } else {
        assert(raw == sib);
        assert(e == content);
        assert(e.len() == size_fs);
    }
    if ob > sib {
        // the offset lies beyond the last block: the empty reply
        assert(ob * bs >= (sib + 1) * bs) by {
            vstd::arithmetic::mul::lemma_mul_inequality(sib + 1, ob, bs);
        }
        assert((sib + 1) * bs == size_fs + bs) by {
            vstd::arithmetic::mul::lemma_mul_is_distributive_add_other_way(bs, sib, 1);
            vstd::arithmetic::mul::lemma_mul_basics(bs);
        }
        assert(offset > size_fs);
        assert(spec_read_plan(offset, requested, bs, size_fs, ft) is None);
        assert(spec_file_window(e, offset, requested) =~= Seq::<u8>::empty());
    } else {
        assert(ob * bs <= sib * bs) by {
            vstd::arithmetic::mul::lemma_mul_inequality(ob, sib, bs);
        }
        assert(offset <= size_fs);
        let rb = (req + bs - 1) / bs;
        lemma_ceil_div_bounds(req, bs);
        let fix = spec_plan_fix(ft);
        assert(fix == 0);
        let step = spec_plan_step(ob, bs);
        assert(step >= 1);
        let bound = if rb > 0 {
            ob + rb
        } else {
            ob
        };
        lemma_chunk_cover(content, ob, bound, 0, rb, raw, step, bs);
        let cov = spec_cover_blocks(ob, 0, rb, raw);
        let lo = if ob <= raw {
            ob * bs
        } else {
            raw * bs
        };
        let chunks = spec_chunk_seq(ob, bound, 0, rb, raw, 0, step);
        let datas = spec_chunk_datas(content, chunks, bs, 0);
        let flat = datas.flatten();
        assert(flat == content.subrange(lo, lo + cov * bs));
        let total = spec_chunk_total(ob, bound, 0, rb, raw, 0, step);
        assert(total == cov);
        let has_trailer = ft == fta && total < rb && ob + total == raw;
        let fixh = ft == fta && ob == 0;
        let joined = flat + if has_trailer {
            spec_trailer()
        } else {
            Seq::<u8>::empty()
        };
        let wlen = if requested <= size_fs - offset {
            requested
        } else {
            size_fs - offset
        };
        assert(spec_file_window(e, offset, requested) == e.subrange(offset, offset + wlen));
        if ft != fta {
            // raw content only: the chunks alone are the window
            assert(!has_trailer && !fixh);
            assert(joined =~= flat);
            assert(ob <= raw && lo == offset);
            if rb <= raw - ob {
                assert(cov == rb);
                assert(cov * bs >= req);
                assert(rb * bs <= (raw - ob) * bs) by {
                    vstd::arithmetic::mul::lemma_mul_inequality(rb, raw - ob, bs);
                }
                assert((raw - ob) * bs == size_fs - offset) by {
                    vstd::arithmetic::mul::lemma_mul_is_distributive_sub_other_way(bs, raw, ob);
                }
                assert(req == wlen);
                assert(spec_take_at_most(joined, req) =~= e.subrange(offset, offset + wlen));
            } else {
                assert(raw - ob >= 0 && cov == raw - ob);
                assert(cov * bs == size_fs - offset) by {
                    vstd::arithmetic::mul::lemma_mul_is_distributive_sub_other_way(bs, raw, ob);
                }
                assert((rb - 1) * bs >= (raw - ob) * bs) by {
                    vstd::arithmetic::mul::lemma_mul_inequality(raw - ob, rb - 1, bs);
                }
                assert(req > size_fs - offset);
                assert(wlen == size_fs - offset);
                assert(spec_take_at_most(joined, req) =~= e.subrange(offset, offset + wlen));
            }
            assert(spec_catalog_read(content, offset, requested, bs, size_fs, ft) == Ok::<
                Seq<u8>,
                AsmError,
            >(e.subrange(offset, offset + wlen)));
        } else {
            // archive log: trailer synthesis and the header fixup
            assert(bs == 512);
            if ob == sib {
                assert(ob > raw);
                assert(cov == 0);
                assert(lo == raw * bs);
                assert(flat =~= Seq::<u8>::empty());
                assert(!has_trailer && !fixh);
                assert(joined =~= Seq::<u8>::empty());
                assert(wlen == 0);
                assert(offset == size_fs);
                assert(spec_take_at_most(joined, req) =~= e.subrange(offset, offset));
            } else {
                assert(ob <= raw && lo == offset);
                let jlen = joined.len() as int;
                assert(has_trailer <==> rb > raw - ob);
                if has_trailer {
                    assert(cov == raw - ob);
                    assert(cov * bs == raw * bs - offset) by {
                        vstd::arithmetic::mul::lemma_mul_is_distributive_sub_other_way(
                            bs,
                            raw,
                            ob,
                        );
                    }
                    assert(jlen == size_fs - offset);
                    if requested <= size_fs - offset {
                        assert(req == requested);
                    } else {
                        assert(req >= jlen);
                    }
                    assert(wlen == if req <= jlen {
                        req
                    } else {
                        jlen
                    });
                } else {
                    assert(cov == rb);
                    assert(cov * bs >= req);
                    assert(rb * bs <= (raw - ob) * bs) by {
                        vstd::arithmetic::mul::lemma_mul_inequality(rb, raw - ob, bs);
                    }
                    assert((raw - ob) * bs == raw * bs - offset) by {
                        vstd::arithmetic::mul::lemma_mul_is_distributive_sub_other_way(
                            bs,
                            raw,
                            ob,
                        );
                    }
                    assert(req <= raw * bs - offset);
                    assert(jlen == cov * bs);
                    assert(req == wlen);
                }
                let res = if req <= jlen {
                    req
                } else {
                    jlen
                };
                assert(res == wlen);
                // byte-for-byte: the joined buffer below the cut is the
                // effective file from `offset` on
                assert(offset + cov * bs <= raw * bs) by {
                    vstd::arithmetic::mul::lemma_mul_inequality(ob + cov, raw, bs);
                    vstd::arithmetic::mul::lemma_mul_is_distributive_add_other_way(bs, ob, cov);
                }
                if fixh {
                    assert(ob == 0 && offset == 0);
                    assert(req >= 1);
                    assert(rb >= 1);
                    assert(raw >= 1);
                    assert(cov >= 1);
                    assert(cov * bs >= 512) by {
                        vstd::arithmetic::mul::lemma_mul_inequality(1, cov, bs);
                    }
                    assert(jlen >= 512);
                    let fj = spec_fix_header(joined);
                    assert forall|k: int| 0 <= k < jlen implies fj[k] == e[k] by {
                        assert(joined[0x10] == content[0x10] && joined[0x11] == content[0x11]
                            && joined[0x12] == content[0x12] && joined[0x13] == content[0x13]);
                        if k < cov * bs {
                            assert(joined[k] == content[k]);
                        } else {
                            assert(has_trailer && joined[k] == TRAILER_FILL);
                            assert(cov * bs == raw * bs);
                            assert(e[k] == TRAILER_FILL);
                        }
                    }
                    assert(spec_take_at_most(fj, req) =~= e.subrange(offset, offset + wlen));
                    assert(spec_assemble(datas, has_trailer, fixh, req) == Ok::<Seq<u8>, AsmError>(
                        spec_take_at_most(fj, req),
                    ));
                } else {
                    assert(ob >= 1);
                    assert(offset >= 512) by {
                        vstd::arithmetic::mul::lemma_mul_inequality(1, ob, bs);
                    }
                    assert forall|k: int| 0 <= k < jlen implies joined[k] == e[offset + k] by {
                        if k < cov * bs {
                            assert(joined[k] == content[offset + k]);
                            assert(offset + k < raw * bs);
                            assert(e[offset + k] == spec_fix_header(content)[offset + k]);
                            assert(spec_fix_header(content)[offset + k] == content[offset + k]);
                        } else {
                            assert(has_trailer && joined[k] == TRAILER_FILL);
                            assert(offset + cov * bs == raw * bs);
                            assert(offset + k >= raw * bs);
                            assert(e[offset + k] == TRAILER_FILL);
                        }
                    }
                    assert(spec_take_at_most(joined, req) =~= e.subrange(offset, offset + wlen));
                }
            }
        }
    }
}

/// On a well-formed handle the effective file is exactly `size_fs` bytes
/// long.
pub proof fn lemma_effective_file_len(content: Seq<u8>, bs: int, size_fs: int, ft: int)
    requires
        spec_catalog_wf(content, bs, size_fs, ft),
    ensures
        spec_effective_file(content, ft).len() == size_fs,
{
    let sib = size_fs / bs;
    lemma_exact_div(size_fs, bs);
    if ft == FILE_TYPE_ARCHIVELOG as int {
        assert(spec_raw_blocks(size_fs, bs, ft) == sib - 1) by {
            if sib <= 1 {
                vstd::arithmetic::mul::lemma_mul_inequality(sib, 1, bs);
            }
        }
        assert((sib - 1) * bs == size_fs - bs) by {
            vstd::arithmetic::mul::lemma_mul_is_distributive_sub_other_way(bs, sib, 1);
            vstd::arithmetic::mul::lemma_mul_basics(bs);
        }
    }
}

/// Read idempotence: a read has no effect on the handle, so two successive
/// reads at the same offset and size see the same raw content and return
/// identical byte sequences.
pub proof fn lemma_catalog_read_idempotent(
    content: Seq<u8>,
    offset1: int,
    requested1: int,
    offset2: int,
    requested2: int,
    bs: int,
    size_fs: int,
    ft: int,
)
    requires
        offset1 == offset2,
        requested1 == requested2,
    ensures
        spec_catalog_read(content, offset1, requested1, bs, size_fs, ft) == spec_catalog_read(
            content,
            offset2,
            requested2,
            bs,
            size_fs,
            ft,
        ),
{
}

/// Prefix consistency: reading `[0, n)` returns the same bytes as reading
/// `[0, k)` and then `[k, n)`, for every block-aligned split point.  For
/// archive logs the split must not be 0: a zero-length read of the header
/// block is a format error.
pub proof fn lemma_catalog_read_prefix(
    content: Seq<u8>,
    k: int,
    n: int,
    bs: int,
    size_fs: int,
    ft: int,
)
    requires
        spec_catalog_wf(content, bs, size_fs, ft),
        0 <= k <= n <= size_fs,
        k % bs == 0,
        ft == FILE_TYPE_ARCHIVELOG as int ==> 1 <= k && 1 <= n,
    ensures
        ({
            let whole = spec_catalog_read(content, 0, n, bs, size_fs, ft);
            let first = spec_catalog_read(content, 0, k, bs, size_fs, ft);
            let second = spec_catalog_read(content, k, n - k, bs, size_fs, ft);
            &&& whole is Ok
            &&& first is Ok
            &&& second is Ok
            &&& whole->Ok_0 == first->Ok_0 + second->Ok_0
        }),
{
    let e = spec_effective_file(content, ft);
    assert(0int % bs == 0) by {
        vstd::arithmetic::div_mod::lemma_mod_self_0(bs);
        vstd::arithmetic::div_mod::lemma_small_mod(0nat, bs as nat);
    }
    lemma_catalog_read_window(content, 0, n, bs, size_fs, ft);
    lemma_catalog_read_window(content, 0, k, bs, size_fs, ft);
    lemma_catalog_read_window(content, k, n - k, bs, size_fs, ft);
    lemma_effective_file_len(content, bs, size_fs, ft);
    assert(spec_file_window(e, 0, n) =~= spec_file_window(e, 0, k) + spec_file_window(
        e,
        k,
        n - k,
    ));
}

/// Size agreement: a read returns exactly the requested bytes, cut down to
/// what lies between the offset and the end of the effective file.  So
/// sequential reads from offset 0 obtain `size_fs` bytes in all, and every
/// read at or past `size_fs` returns the empty buffer.
pub proof fn lemma_catalog_read_size(
    content: Seq<u8>,
    offset: int,
    requested: int,
    bs: int,
    size_fs: int,
    ft: int,
)
    requires
        spec_catalog_wf(content, bs, size_fs, ft),
        offset >= 0,
        offset % bs == 0,
        requested >= 0,
        ft == FILE_TYPE_ARCHIVELOG as int && offset == 0 ==> requested >= 1,
    ensures
        ({
            let r = spec_catalog_read(content, offset, requested, bs, size_fs, ft);
            &&& r is Ok
            &&& r->Ok_0.len() == if offset >= size_fs {
                0int
            } else if requested <= size_fs - offset {
                requested
            } else {
                size_fs - offset
            }
        }),
{
    lemma_catalog_read_window(content, offset, requested, bs, size_fs, ft);
    lemma_effective_file_len(content, bs, size_fs, ft);
}

/// Archive-log trailer: the final block of the effective file, one block
/// past the raw content, reads back as 512 bytes of `0xFE`.
pub proof fn lemma_archivelog_trailer_bytes(content: Seq<u8>, bs: int, size_fs: int, ft: int)
    requires
        spec_catalog_wf(content, bs, size_fs, ft),
        ft == FILE_TYPE_ARCHIVELOG as int,
    ensures
        ({
            let r = spec_catalog_read(content, size_fs - 512, 512, bs, size_fs, ft);
            &&& r is Ok
            &&& r->Ok_0 == spec_trailer()
            &&& forall|j: int| 0 <= j < 512 ==> r->Ok_0[j] == 0xfe
        }),
{
    assert((size_fs - 512) % bs == 0) by {
        vstd::arithmetic::div_mod::lemma_mod_sub_multiples_vanish(size_fs, bs);
    }
    lemma_catalog_read_window(content, size_fs - 512, 512, bs, size_fs, ft);
    lemma_effective_file_len(content, bs, size_fs, ft);
    let e = spec_effective_file(content, ft);
    assert(spec_file_window(e, size_fs - 512, 512) =~= spec_trailer());
}

/// Chunking bound: when no offset fix is in play and the block size is at
/// most 24 KiB, no planned catalog read asks for more than 24 KiB of
/// bytes.
pub proof fn lemma_chunk_byte_bound(
    offset: int,
    requested: int,
    bs: int,
    size_fs: int,
    ft: int,
)
    requires
        1 <= bs <= READ_CHUNK_BYTES as int,
        ft != FILE_TYPE_SPFILE as int,
    ensures
        match spec_read_plan(offset, requested, bs, size_fs, ft) {
            Some(p) => forall|k: int|
                0 <= k < p.0.len() ==> (#[trigger] p.0[k]).1 * bs <= READ_CHUNK_BYTES as int,
            None => true,
        },
{
    let plan = spec_read_plan(offset, requested, bs, size_fs, ft);
    if plan is Some {
        let p = plan->Some_0;
        let ob = offset / bs;
        let step = spec_plan_step(ob, bs);
        assert(step * bs <= READ_CHUNK_BYTES as int) by {
            if ob == 0 {
                vstd::arithmetic::mul::lemma_mul_basics(bs);
            } else {
                let s0 = READ_CHUNK_BYTES as int / bs;
                vstd::arithmetic::div_mod::lemma_fundamental_div_mod(
                    READ_CHUNK_BYTES as int,
                    bs,
                );
                vstd::arithmetic::div_mod::lemma_mod_division_less_than_divisor(
                    READ_CHUNK_BYTES as int,
                    bs,
                );
                vstd::arithmetic::div_mod::lemma_div_pos_is_pos(READ_CHUNK_BYTES as int, bs);
                vstd::arithmetic::mul::lemma_mul_is_commutative(s0, bs);
                if s0 == 0 {
                    assert(READ_CHUNK_BYTES as int % bs < bs);
                    assert(false);
                }
                assert(step == s0);
            }
        }
        let req = if requested > size_fs {
            size_fs
        } else {
            requested
        };
        let raw = spec_raw_blocks(size_fs, bs, ft);
        let rb = (req + bs - 1) / bs;
        let bound = if rb > 0 {
            ob + rb
        } else {
            ob
        };
        lemma_chunk_seq_amount_bound(ob, bound, 0, rb, raw, 0, step);
        assert forall|k: int| 0 <= k < p.0.len() implies (#[trigger] p.0[k]).1 * bs
            <= READ_CHUNK_BYTES as int by {
            assert(p.0[k].1 <= step);
            vstd::arithmetic::mul::lemma_mul_inequality(p.0[k].1, step, bs);
        }
    }
}

/// Server-parameter-file offset fix: a read of such a file starting at
/// offset 0 asks the catalog for block index 1, never 0, and every later
/// chunk starts past it.
pub proof fn lemma_spfile_first_block(requested: int, bs: int, size_fs: int)
    requires
        bs >= 1,
    ensures
        match spec_read_plan(0, requested, bs, size_fs, FILE_TYPE_SPFILE as int) {
            Some(p) => (p.0.len() > 0 ==> p.0[0].0 == 1) && forall|k: int|
                0 <= k < p.0.len() ==> (#[trigger] p.0[k]).0 >= 1,
            None => true,
        },
{
    let ft = FILE_TYPE_SPFILE as int;
    let plan = spec_read_plan(0, requested, bs, size_fs, ft);
    if plan is Some {
        let p = plan->Some_0;
        let ob = 0int / bs;
        assert(ob == 0) by {
            vstd::arithmetic::div_mod::lemma_small_div_converse(0, bs);
        }
        let req = if requested > size_fs {
            size_fs
        } else {
            requested
        };
        let raw = spec_raw_blocks(size_fs, bs, ft);
        let rb = (req + bs - 1) / bs;
        let step = spec_plan_step(0, bs);
        let bound = if rb > 1 {
            rb - 1
        } else {
            0
        };
        lemma_chunk_seq_amount_bound(0, bound, 0, rb, raw, 1, step);
        if p.0.len() > 0 {
            assert(rb > 0) by {
                if rb <= 0 {
                    assert(bound == 0);
                }
            }
            lemma_chunk_seq_first_index(0, bound, 0, rb, raw, 1, step);
        }
    }
}

} // verus!
