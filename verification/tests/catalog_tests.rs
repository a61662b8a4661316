use asmfs::catalog::{
    AliasFileRow, AliasRow, AsmAlias, CivilTime, FileKind, OpenFileHandle, getfileattr_result,
    group_dir_attr, parse_conn_str, parse_db_unique_name, query_asm_diskgroup_ent_ino,
    query_asm_diskgroup_vec, query_asm_alias_vec, root_attr, strip_group_name,
};
use asmfs::error::AsmError;
use asmfs::fs::{AsmFS, readdir_entries};

fn alias_row(name: &str, reference_index: u32, alias_index: u32) -> AliasRow {
    AliasRow {
        reference_index,
        alias_index,
        file_number: 7,
        name: name.to_string(),
        alias_directory: false,
        system_created: true,
    }
}

#[test]
fn root_readdir_lists_groups_with_synthetic_entries() {
    // two groups A (group 1) and B (group 2)
    let rows = vec![(1u8, "+A".to_string()), (2u8, "+B".to_string())];
    let entries = query_asm_diskgroup_vec(rows);
    let inode_a = (1u64 << 56) | 0xffff_ffff;
    let inode_b = (2u64 << 56) | 0xffff_ffff;
    assert_eq!(entries.len(), 4);
    assert_eq!(entries[0].ino, 1);
    assert_eq!(entries[0].kind, FileKind::Directory);
    assert_eq!(entries[0].name, ".");
    assert_eq!(entries[1].ino, 1);
    assert_eq!(entries[1].kind, FileKind::Directory);
    assert_eq!(entries[1].name, "..");
    assert_eq!(entries[2].ino, inode_a);
    assert_eq!(entries[2].kind, FileKind::Directory);
    assert_eq!(entries[2].name, "+A");
    assert_eq!(entries[3].ino, inode_b);
    assert_eq!(entries[3].kind, FileKind::Directory);
    assert_eq!(entries[3].name, "+B");
}

#[test]
fn readdir_cookies_are_one_based_and_resume() {
    let rows = vec![(1u8, "+A".to_string()), (2u8, "+B".to_string())];
    let entries = query_asm_diskgroup_vec(rows);
    let all = readdir_entries(entries, 0);
    assert_eq!(all.len(), 4);
    assert_eq!(all[0].0, 1);
    assert_eq!(all[3].0, 4);
    let rows2 = vec![(1u8, "+A".to_string()), (2u8, "+B".to_string())];
    let entries2 = query_asm_diskgroup_vec(rows2);
    let resumed = readdir_entries(entries2, 2);
    assert_eq!(resumed.len(), 2);
    assert_eq!(resumed[0].0, 3);
    assert_eq!(resumed[0].1.name, "+A");
}

#[test]
fn lookup_group_by_name() {
    // lookup(1, "+A"): strip the plus, resolve the group, synthesize
    let stripped = strip_group_name("+A");
    assert_eq!(stripped, "A");
    let attr = group_dir_attr(1);
    assert_eq!(attr.ino, (1u64 << 56) | 0xffff_ffff);
    assert_eq!(attr.kind, FileKind::Directory);
    assert_eq!(attr.perm, 0o755);
}

#[test]
fn group_directory_attributes() {
    let inode_a = (1u64 << 56) | 0xffff_ffff;
    let attr = query_asm_diskgroup_ent_ino(inode_a);
    assert_eq!(attr.ino, inode_a);
    assert_eq!(attr.kind, FileKind::Directory);
    assert_eq!(attr.size, 0);
    assert_eq!(attr.blocks, 0);
    assert_eq!(attr.blksize, 512);
    assert_eq!(attr.nlink, 1);
    assert_eq!(attr.atime, 0);
    assert_eq!(attr.mtime, 0);
    assert_eq!(attr.ctime, 0);
    assert_eq!(attr.crtime, 0);
}

#[test]
fn root_attributes() {
    let attr = root_attr();
    assert_eq!(attr.ino, 1);
    assert_eq!(attr.kind, FileKind::Directory);
    assert_eq!(attr.perm, 0o755);
    assert_eq!(attr.nlink, 2);
}

#[test]
fn readlink_prefixes_mount_point() {
    let fs = AsmFS::new("/mnt/asm".to_string(), true, 0);
    let target = fs.readlink_target("+A/X/Y/F.DBF");
    assert_eq!(target, "/mnt/asm/+A/X/Y/F.DBF");
}

#[test]
fn mount_point_keeps_existing_slash() {
    let fs = AsmFS::new("/mnt/asm/".to_string(), false, 1);
    let target = fs.readlink_target("+B/F");
    assert_eq!(target, "/mnt/asm/+B/F");
}

#[test]
fn alias_kinds_derive_from_flags() {
    let mut row = alias_row("x", (1 << 24) | 5, 3);
    row.alias_directory = true;
    let dir = AsmAlias::from_row_alias(row);
    assert_eq!(dir.get_ftype(), FileKind::Directory);

    let file = AsmAlias::from_row_alias(alias_row("y", (1 << 24) | 5, 4));
    assert_eq!(file.get_ftype(), FileKind::RegularFile);

    let mut row2 = alias_row("z", (1 << 24) | 5, 5);
    row2.system_created = false;
    let link = AsmAlias::from_row_alias(row2);
    assert_eq!(link.get_ftype(), FileKind::Symlink);
}

#[test]
fn alias_listing_carries_inodes_and_kinds() {
    let rows = vec![alias_row("F1", (1 << 24) | 5, 1), alias_row("F2", (1 << 24) | 5, 2)];
    let entries = query_asm_alias_vec(&rows);
    assert_eq!(entries.len(), 2);
    assert_eq!(entries[0].ino, (((1u64 << 24) | 5) << 32) | 1);
    assert_eq!(entries[0].kind, FileKind::RegularFile);
    assert_eq!(entries[0].name, "F1");
    assert_eq!(entries[1].ino, (((1u64 << 24) | 5) << 32) | 2);
}

#[test]
fn file_attributes_from_joined_row() {
    let row = AliasFileRow {
        alias: alias_row("F.DBF", (1 << 24) | 5, 9),
        bytes: Some(1048576),
        blocks: Some(128),
        creation_date: Some(CivilTime { year: 2000, month: 1, day: 2, hour: 3, minute: 4, second: 5 }),
        modification_date: None,
    };
    let alias = AsmAlias::from_row_file(row);
    let attr = alias.get_file_attr();
    assert_eq!(attr.ino, (((1u64 << 24) | 5) << 32) | 9);
    assert_eq!(attr.size, 1048576);
    assert_eq!(attr.blocks, 128);
    assert_eq!(attr.kind, FileKind::RegularFile);
    assert_eq!(attr.perm, 0o755);
    assert_eq!(attr.nlink, 1);
    assert_eq!(attr.blksize, 512);
    assert_eq!(attr.atime, 0);
    assert_eq!(attr.crtime, 0);
    // 2000-01-02T03:04:05Z through the calendar conversion
    assert_eq!(attr.ctime, 946_782_245);
    // absent modification date is shown as the epoch
    assert_eq!(attr.mtime, 0);
}

#[test]
fn invalid_calendar_date_is_shown_as_epoch() {
    let row = AliasFileRow {
        alias: alias_row("F", (1 << 24) | 5, 9),
        bytes: None,
        blocks: None,
        creation_date: Some(CivilTime { year: 2000, month: 13, day: 41, hour: 0, minute: 0, second: 0 }),
        modification_date: None,
    };
    let alias = AsmAlias::from_row_file(row);
    assert_eq!(alias.get_creation_date(), 0);
    assert_eq!(alias.get_file_attr().size, 0);
}

#[test]
fn archivelog_size_gains_one_trailer_block() {
    // size_fs - size_asm == block_size exactly for archive logs
    let r = getfileattr_result(4, 1024, 512);
    assert_eq!(r, (4, 1024, 1536, 512));
    assert_eq!(r.2 - r.1, 512);
    let other = getfileattr_result(2, 1024, 512);
    assert_eq!(other, (2, 1024, 1024, 512));
}

#[test]
fn open_handle_blocks_and_byte_sizes() {
    let h = OpenFileHandle::from_proc_open(512, 1024, 4);
    assert_eq!(h.blocks_asm, 2);
    assert_eq!(h.blocks_fs, 3);
    assert_eq!(h.bytes_size_asm(), 1024);
    assert_eq!(h.bytes_size_fs(), 1536);
    let plain = OpenFileHandle::from_proc_open(512, 1024, 2);
    assert_eq!(plain.blocks_fs, 2);
    assert_eq!(plain.bytes_size_fs(), 1024);
}

#[test]
fn handle_table_registers_and_releases_once() {
    let mut fs = AsmFS::new("/mnt/a".to_string(), false, 0);
    let h = OpenFileHandle::from_proc_open(512, 1024, 2);
    fs.register_dbms_handle(42, h);
    assert!(fs.get_dbms_handle(42).is_some());
    assert_eq!(fs.get_dbms_handle(42).unwrap().blocks_asm, 2);
    let released = fs.release_dbms_handle(42);
    assert!(released.is_some());
    assert!(fs.get_dbms_handle(42).is_none());
    assert!(fs.release_dbms_handle(42).is_none());
}

#[test]
fn parse_remote_connection_string() {
    let (user, pass, inst) = parse_conn_str("sys/SECRET-REDACTED@db1:1521/asm").expect("parse");
    assert_eq!(user, "sys");
    assert_eq!(pass, "SECRET-REDACTED");
    assert_eq!(inst, "db1:1521/asm");
}

#[test]
fn malformed_connection_strings_are_refused() {
    assert_eq!(parse_conn_str("nosuchthing"), Err(AsmError::InvalidConnectionString));
    assert_eq!(parse_conn_str("userpass@inst"), Err(AsmError::InvalidConnectionString));
    assert_eq!(
        AsmError::InvalidConnectionString.message(),
        "connection string must be user/pass@inst"
    );
}

#[test]
fn db_unique_name_is_second_component() {
    assert_eq!(parse_db_unique_name("+DATA/ORCL/DATAFILE/users.259.1"), Some("ORCL".to_string()));
    assert_eq!(parse_db_unique_name("DATA/ORCL"), Some("ORCL".to_string()));
    assert_eq!(parse_db_unique_name("//a//b//"), Some("b".to_string()));
    assert_eq!(parse_db_unique_name("+DATA"), None);
    assert_eq!(parse_db_unique_name("+DATA/"), None);
    assert_eq!(parse_db_unique_name(""), None);
}

#[test]
fn strip_group_name_only_removes_leading_plus() {
    assert_eq!(strip_group_name("+DATA"), "DATA");
    assert_eq!(strip_group_name("DATA"), "DATA");
    assert_eq!(strip_group_name(""), "");
}
