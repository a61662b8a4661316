use asmfs::afd::get_afd_map;
use asmfs::error::AsmError;
use asmfs::rawread::{
    AuEntry, DiskDevice, RawOpenFileHandle, is_magic_file_type, read_raw_assemble, read_raw_plan,
};
use asmfs::trail::generate_archivelog_trail;

fn handle(file_size_bytes: u64, au_size: u32, file_type: &str) -> RawOpenFileHandle {
    RawOpenFileHandle {
        file_size_bytes,
        au_size,
        file_type: file_type.to_string(),
        au_list: vec![
            AuEntry { disk: 0, au_offset: 5 },
            AuEntry { disk: 1, au_offset: 9 },
            AuEntry { disk: 0, au_offset: 6 },
        ],
        disk_list: vec![
            DiskDevice { disk: 0, path: "/dev/sdd".to_string() },
            DiskDevice { disk: 1, path: "/dev/sdb".to_string() },
        ],
    }
}

#[test]
fn raw_plan_first_block() {
    // the first 512 bytes of a datafile: one read on the first extent
    let h = handle(4 * 1048576, 1048576, "DATAFILE");
    let segs = read_raw_plan(&h, 0, 512).expect("plan");
    assert_eq!(segs.len(), 1);
    assert_eq!(segs[0].path, "/dev/sdd");
    assert_eq!(segs[0].device_offset, 5 * 1048576);
    assert_eq!(segs[0].length, 512);
}

#[test]
fn raw_plan_mid_file_offset() {
    // a read within the second allocation unit seeks into its extent
    let h = handle(4 * 1048576, 1048576, "DATAFILE");
    let segs = read_raw_plan(&h, 1048576 + 4096, 8192).expect("plan");
    assert_eq!(segs.len(), 1);
    assert_eq!(segs[0].path, "/dev/sdb");
    assert_eq!(segs[0].device_offset, 9 * 1048576 + 4096);
    assert_eq!(segs[0].length, 8192);
}

#[test]
fn raw_plan_clips_to_file_size() {
    let h = handle(1048576 + 1000, 1048576, "DATAFILE");
    let segs = read_raw_plan(&h, 1048576, 65536).expect("plan");
    assert_eq!(segs.len(), 1);
    assert_eq!(segs[0].length, 1000);
    let beyond = read_raw_plan(&h, 10 * 1048576, 4096).expect("plan");
    assert!(beyond.is_empty());
}

#[test]
fn raw_plan_spans_allocation_units_in_order() {
    let h = handle(4 * 1048576, 1048576, "DATAFILE");
    let segs = read_raw_plan(&h, 0, 1572864).expect("plan");
    assert_eq!(segs.len(), 2);
    assert_eq!(segs[0].path, "/dev/sdd");
    assert_eq!(segs[0].device_offset, 5 * 1048576);
    assert_eq!(segs[0].length, 1048576);
    assert_eq!(segs[1].path, "/dev/sdb");
    assert_eq!(segs[1].device_offset, 9 * 1048576);
    assert_eq!(segs[1].length, 524288);
}

#[test]
fn raw_plan_errors() {
    let mut h = handle(16 * 1048576, 1048576, "DATAFILE");
    // walking past the extent map
    let r = read_raw_plan(&h, 3 * 1048576, 4096);
    assert_eq!(r.err(), Some(AsmError::AuOutOfRange));
    assert_eq!(AsmError::AuOutOfRange.message(), "allocation unit index beyond the extent map");
    // a disk key the device map does not hold
    h.au_list[0].disk = 77;
    let r2 = read_raw_plan(&h, 0, 4096);
    assert_eq!(r2.err(), Some(AsmError::UnknownDisk));
}

#[test]
fn raw_assemble_applies_datafile_header_fixup() {
    // the first 512 bytes of a datafile, with known header words
    let mut block = vec![0u8; 512];
    block[0x10] = 0x12;
    block[0x11] = 0x34;
    block[0x12] = 0x56;
    block[0x13] = 0x78;
    block[0x20] = 0xde;
    block[0x21] = 0xad;
    let data = read_raw_assemble(&vec![block.clone()], 0, &"DATAFILE".to_string()).expect("read");
    assert_eq!(data.len(), 512);
    assert_eq!(data[0x10], 0x12 ^ 0xa0);
    assert_eq!(data[0x11], 0x34 ^ 0x81);
    assert_eq!(data[0x12], 0x56 ^ 0x00);
    assert_eq!(data[0x13], 0x78 ^ 0x00);
    assert_eq!(&data[0x20..0x24], &[0xa0, 0x81, 0x00, 0x00]);
    // other bytes unchanged
    assert_eq!(data[0x30], 0);
}

#[test]
fn raw_assemble_skips_fixup_off_header() {
    let block = vec![0x7fu8; 512];
    let data = read_raw_assemble(&vec![block.clone()], 512, &"DATAFILE".to_string()).expect("read");
    assert_eq!(data, block);
    let other = read_raw_assemble(&vec![block.clone()], 0, &"PARAMETERFILE".to_string())
        .expect("read");
    assert_eq!(other, block);
}

#[test]
fn raw_assemble_short_header_is_error() {
    let r = read_raw_assemble(&vec![vec![0u8; 100]], 0, &"ARCHIVELOG".to_string());
    assert_eq!(r, Err(AsmError::HeaderTooShort));
    assert_eq!(AsmError::HeaderTooShort.message(), "header buffer is less than 512 bytes");
}

#[test]
fn magic_file_types() {
    assert!(is_magic_file_type(&"ARCHIVELOG".to_string()));
    assert!(is_magic_file_type(&"DATAFILE".to_string()));
    assert!(is_magic_file_type(&"TEMPFILE".to_string()));
    assert!(is_magic_file_type(&"CONTROLFILE".to_string()));
    assert!(!is_magic_file_type(&"PARAMETERFILE".to_string()));
    assert!(!is_magic_file_type(&"datafile".to_string()));
}

#[test]
fn afd_output_parses_label_path_rows() {
    let output = b"--------------------------------\n\
Label                     Path\n\
================================\n\
DATA1                     /dev/sdd\n\
DATA2                     /dev/sdb\n\
\n\
DATA3 /dev/sde extra-column\n"
        .to_vec();
    let map = get_afd_map(&output);
    assert_eq!(map.len(), 3);
    assert_eq!(map[0].label, b"DATA1");
    assert_eq!(map[0].path, b"/dev/sdd");
    assert_eq!(map[1].label, b"DATA2");
    assert_eq!(map[1].path, b"/dev/sdb");
    // extra columns are ignored, blank rows skipped
    assert_eq!(map[2].label, b"DATA3");
    assert_eq!(map[2].path, b"/dev/sde");
}

#[test]
fn afd_output_needs_two_columns() {
    let output = b"h1\nh2\nh3\nONLYLABEL\nGOOD /dev/sdz\n".to_vec();
    let map = get_afd_map(&output);
    assert_eq!(map.len(), 1);
    assert_eq!(map[0].label, b"GOOD");
    assert_eq!(map[0].path, b"/dev/sdz");
}

#[test]
fn afd_header_lines_are_skipped_even_if_row_shaped() {
    let output = b"A /dev/a\nB /dev/b\nC /dev/c\nD /dev/d\n".to_vec();
    let map = get_afd_map(&output);
    assert_eq!(map.len(), 1);
    assert_eq!(map[0].label, b"D");
}

#[test]
fn structured_trailer_constants() {
    let block = generate_archivelog_trail().expect("trail");
    assert_eq!(block.len(), 512);
    assert_eq!(block[0x00], 0x01);
    assert_eq!(block[0x01], 0x22);
    assert_eq!(block[0x0a], 0x10);
    assert_eq!(block[0x0b], 0x80);
    assert_eq!(block[0x0e], 0x8c);
    assert_eq!(block[0x18], 0x01);
    assert_eq!(block[0x22], 0x01);
    assert_eq!(block[0x24], 0x01);
    assert_eq!(block[0x25], 0x01);
    assert_eq!(block[0x28], 0x01);
    assert_eq!(block[0x2b], 0x0a);
    assert_eq!(block[0x52], 0x18);
    assert_eq!(block[0x53], 0x04);
    // padding stays zero
    assert_eq!(block[0x02], 0x00);
    assert_eq!(block[0xa0], 0x00);
    assert_eq!(block[511], 0x00);
}

#[test]
fn raw_handle_registry_keyed_by_inode() {
    let mut fs = asmfs::fs::AsmFS::new("/mnt/x".to_string(), true, 2);
    let h = handle(1048576, 1048576, "TEMPFILE");
    fs.register_raw_handle(4242, h);
    assert!(fs.get_raw_handle(4242).is_some());
    assert_eq!(fs.get_raw_handle(4242).unwrap().au_size, 1048576);
    assert!(fs.release_raw_handle(4242).is_some());
    assert!(fs.get_raw_handle(4242).is_none());
    assert!(fs.release_raw_handle(4242).is_none());
}
