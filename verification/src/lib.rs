//! A read-only view of an ASM (automatic storage management) catalog as a
//! POSIX-like file tree: inode packing of catalog keys, attribute synthesis
//! from catalog rows, the two read engines (catalog-mediated and raw-device),
//! header fixup and trailer synthesis, and the device-label parser.
pub mod afd;
pub mod catalog;
pub mod error;
pub mod fs;
pub mod header;
pub mod inode;
pub mod rawread;
pub mod read_model;
pub mod readeng;
pub mod trail;
