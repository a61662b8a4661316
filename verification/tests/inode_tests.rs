use asmfs::inode::Inode;

#[test]
fn inode_round_trip_small() {
    let reference_index: u32 = (3u32 << 24) | 77;
    let inode = Inode::from_alias(reference_index, 12345);
    assert_eq!(inode.get_reference_index(), reference_index);
    assert_eq!(inode.get_alias_index(), 12345);
    assert_eq!(inode._get_group_number(), 3);
    assert_eq!(inode._get_entry_number(), 77);
    assert!(!inode._is_disk_group());
}

#[test]
fn inode_round_trip_extremes() {
    let reference_index: u32 = (255u32 << 24) | 0x00ff_ffff;
    let inode = Inode::from_alias(reference_index, 0xffff_fffe);
    assert_eq!(inode.get_reference_index(), reference_index);
    assert_eq!(inode.get_alias_index(), 0xffff_fffe);
    assert_eq!(inode._get_group_number(), 255);
    assert_eq!(inode._get_entry_number(), 0x00ff_ffff);
}

#[test]
fn inode_encode_decode_value() {
    let inode = Inode::from_alias((1u32 << 24) | 2, 9);
    let back = Inode::from_ino(inode.get_ino());
    assert_eq!(back.get_reference_index(), (1u32 << 24) | 2);
    assert_eq!(back.get_alias_index(), 9);
    assert_eq!(back.get_ino(), inode.get_ino());
}

#[test]
fn group_directory_inode_layout() {
    let inode = Inode::from_group_number(1);
    assert_eq!(inode.get_ino(), (1u64 << 56) | 0xffff_ffff);
    assert!(inode._is_disk_group());
    assert_eq!(inode._get_group_number(), 1);
    assert_eq!(inode._get_entry_number(), 0);

    let inode2 = Inode::from_group_number(2);
    assert_eq!(inode2.get_ino(), (2u64 << 56) | 0xffff_ffff);
}

#[test]
fn plain_alias_is_not_group_directory() {
    let with_entry = Inode::from_alias((1u32 << 24) | 1, 0xffff_ffff);
    assert!(!with_entry._is_disk_group());
    let with_alias = Inode::from_alias(1u32 << 24, 7);
    assert!(!with_alias._is_disk_group());
}
