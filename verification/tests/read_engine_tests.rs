use asmfs::header::fix_header_block;
use asmfs::readeng::{proc_read_plan, proc_read_assemble, ReadPlan};

/// Answers every planned chunk from the file's raw content, as the
/// catalog would: chunk (b, n) yields content bytes
/// [(b - fix) * bs .. (b - fix + n) * bs).
fn answer_chunks(plan: &ReadPlan, content: &[u8], block_size: usize, fix: u64) -> Vec<Vec<u8>> {
    let mut datas: Vec<Vec<u8>> = Vec::new();
    for chunk in plan.chunks.iter() {
        let start = ((chunk.block_index - fix) as usize) * block_size;
        let end = start + (chunk.blocks as usize) * block_size;
        datas.push(content[start..end].to_vec());
    }
    datas
}

/// One catalog-mediated read over simulated content.
fn simulated_read(
    content: &[u8],
    offset: u64,
    size: u32,
    block_size: u32,
    size_fs: u64,
    file_type: u32,
) -> Vec<u8> {
    let fix: u64 = if file_type == 13 { 1 } else { 0 };
    match proc_read_plan(offset, size, block_size, size_fs, file_type) {
        None => Vec::new(),
        Some(plan) => {
            let datas = answer_chunks(&plan, content, block_size as usize, fix);
            proc_read_assemble(&plan, &datas).expect("assemble failed")
        },
    }
}

#[test]
fn archivelog_trailer_block_read() {
    // file_type 4, block_size 512, size_asm 1024, size_fs 1536: the read
    // at (offset 1024, size 512) is exactly the synthesized trailer.
    let content = vec![0x11u8; 1024];
    let data = simulated_read(&content, 1024, 512, 512, 1536, 4);
    assert_eq!(data.len(), 512);
    assert!(data.iter().all(|b| *b == 0xfe));
    assert_eq!(data[0], 0xfe);
    assert_eq!(data[1], 0xfe);
}

#[test]
fn archivelog_whole_file_read() {
    let mut content = vec![0u8; 1024];
    for (i, b) in content.iter_mut().enumerate() {
        *b = (i % 251) as u8;
    }
    content[0x10] = 0x01;
    content[0x11] = 0x02;
    content[0x12] = 0x03;
    content[0x13] = 0x04;
    let data = simulated_read(&content, 0, 1536, 512, 1536, 4);
    assert_eq!(data.len(), 1536);
    // checksum word XORed with 0x000081A0
    assert_eq!(data[0x10], 0x01 ^ 0xa0);
    assert_eq!(data[0x11], 0x02 ^ 0x81);
    assert_eq!(data[0x12], 0x03);
    assert_eq!(data[0x13], 0x04);
    // metadata word overwritten
    assert_eq!(&data[0x20..0x24], &[0xa0, 0x81, 0x00, 0x00]);
    // untouched data bytes come through unchanged
    assert_eq!(data[0x30], content[0x30]);
    assert_eq!(data[1023], content[1023]);
    // the final block is the trailer
    assert!(data[1024..].iter().all(|b| *b == 0xfe));
}

#[test]
fn read_idempotence_same_bytes_twice() {
    let content: Vec<u8> = (0..2048u32).map(|i| (i % 239) as u8).collect();
    let first = simulated_read(&content, 512, 1024, 512, 2048, 2);
    let second = simulated_read(&content, 512, 1024, 512, 2048, 2);
    assert_eq!(first, second);
}

#[test]
fn prefix_consistency_split_read() {
    let content: Vec<u8> = (0..4096u32).map(|i| (i * 7 % 256) as u8).collect();
    let whole = simulated_read(&content, 0, 4096, 512, 4096, 2);
    let first = simulated_read(&content, 0, 1536, 512, 4096, 2);
    let second = simulated_read(&content, 1536, 2560, 512, 4096, 2);
    assert_eq!(whole.len(), 4096);
    let mut glued = first.clone();
    glued.extend(second);
    assert_eq!(whole, glued);
}

#[test]
fn size_agreement_sequential_reads() {
    // reads deliver exactly size_fs bytes in all, then the empty reply
    let content: Vec<u8> = (0..1536u32).map(|i| (i % 256) as u8).collect();
    let size_fs: u64 = 1536;
    let mut total = 0usize;
    let mut offset = 0u64;
    loop {
        let data = simulated_read(&content, offset, 512, 512, size_fs, 2);
        if data.is_empty() {
            break;
        }
        total += data.len();
        offset += data.len() as u64;
    }
    assert_eq!(total as u64, size_fs);
}

#[test]
fn short_read_is_clamped_to_file_size() {
    let content: Vec<u8> = vec![0x42; 1024];
    let data = simulated_read(&content, 512, 4096, 512, 1024, 2);
    assert_eq!(data.len(), 512);
    assert!(data.iter().all(|b| *b == 0x42));
}

#[test]
fn read_past_end_is_empty() {
    let content: Vec<u8> = vec![0x42; 1024];
    let data = simulated_read(&content, 1024, 512, 512, 1024, 2);
    assert!(data.is_empty());
    let far = simulated_read(&content, 65536, 512, 512, 1024, 2);
    assert!(far.is_empty());
}

#[test]
fn oversized_block_size_is_refused() {
    assert!(proc_read_plan(0, 512, 32768, 65536, 2).is_none());
}

#[test]
fn chunking_bound_24k() {
    // no planned catalog read exceeds 24 KiB
    let plan = proc_read_plan(49152, 1_000_000, 512, 100_000_000, 2).expect("plan");
    assert!(!plan.chunks.is_empty());
    for chunk in plan.chunks.iter() {
        assert!(chunk.blocks * 512 <= 24 * 1024);
    }
    let plan2 = proc_read_plan(8192, 500_000, 4096, 50_000_000, 2).expect("plan");
    for chunk in plan2.chunks.iter() {
        assert!(chunk.blocks * 4096 <= 24 * 1024);
    }
}

#[test]
fn spfile_read_starts_at_block_one() {
    // file_type 13: a read at offset 0 asks the catalog for block 1
    let plan = proc_read_plan(0, 1024, 512, 10240, 13).expect("plan");
    assert!(!plan.chunks.is_empty());
    assert_eq!(plan.chunks[0].block_index, 1);
    for chunk in plan.chunks.iter() {
        assert!(chunk.block_index >= 1);
    }
}

#[test]
fn header_fixup_bytes() {
    let mut buffer = vec![0u8; 512];
    buffer[0x10] = 0x5a;
    buffer[0x11] = 0x10;
    buffer[0x12] = 0xff;
    buffer[0x13] = 0x00;
    fix_header_block(&mut buffer).expect("fixup");
    assert_eq!(buffer[0x10], 0x5a ^ 0xa0);
    assert_eq!(buffer[0x11], 0x10 ^ 0x81);
    assert_eq!(buffer[0x12], 0xff);
    assert_eq!(buffer[0x13], 0x00);
    assert_eq!(buffer[0x20], 0xa0);
    assert_eq!(buffer[0x21], 0x81);
    assert_eq!(buffer[0x22], 0x00);
    assert_eq!(buffer[0x23], 0x00);
}

#[test]
fn header_fixup_twice_is_not_identity() {
    let mut buffer = vec![0u8; 512];
    buffer[0x10] = 0x5a;
    let original = buffer.clone();
    fix_header_block(&mut buffer).expect("fixup");
    fix_header_block(&mut buffer).expect("fixup");
    // the checksum word is XORed back, the metadata word stays overwritten
    assert_eq!(buffer[0x10], original[0x10]);
    assert_ne!(buffer, original);
    assert_eq!(buffer[0x20], 0xa0);
    assert_eq!(buffer[0x21], 0x81);
}

#[test]
fn header_fixup_refuses_short_buffer() {
    let mut buffer = vec![0u8; 511];
    assert!(fix_header_block(&mut buffer).is_err());
    assert_eq!(buffer.len(), 511);
}

#[test]
fn zero_size_archivelog_header_read_fails() {
    // a zero-byte read of an archive log at offset 0 has nothing to fix
    let plan = proc_read_plan(0, 0, 512, 1536, 4).expect("plan");
    let r = proc_read_assemble(&plan, &Vec::new());
    assert_eq!(r, Err(asmfs::error::AsmError::HeaderTooShort));
}
