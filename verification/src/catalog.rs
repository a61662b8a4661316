//! Catalog records and attribute synthesis.
//!
//! The storage catalog answers queries with rows of plain values: volume
//! groups, aliases, file sizes and dates.  This module holds the library's
//! record types for those rows and the logic that turns them into the
//! POSIX-like attributes the filesystem shows: the derived file kind, the
//! synthesized permissions and times, the directory listings, and the size
//! adjustment that exposes the archive-log trailer block.  Connection
//! strings and catalog paths are parsed here as well.
use vstd::prelude::*;

use crate::inode::{Inode, spec_from_alias, spec_group_reference_index, ALIAS_FOR_DG};

verus! {

/// What a directory entry is shown as.
#[derive(Clone, Copy, Debug, PartialEq, Eq, Structural)]
pub enum FileKind {
    Directory,
    RegularFile,
    Symlink,
}

/// A calendar date and time of day, as the catalog reports file dates.
#[derive(Clone, Copy, Debug, PartialEq, Eq, Structural)]
pub struct CivilTime {
    pub year: i32,
    pub month: u32,
    pub day: u32,
    pub hour: u32,
    pub minute: u32,
    pub second: u32,
}

/// The seconds since the Unix epoch of a civil date and time, `None` where
/// the fields name no valid calendar moment.
pub uninterp spec fn unix_time_of(
    year: int,
    month: int,
    day: int,
    hour: int,
    minute: int,
    second: int,
) -> Option<int>;

/// Relies on chrono's `NaiveDate::from_ymd_opt`, `NaiveDate::and_hms_opt`,
/// `NaiveDateTime::and_utc` and `DateTime::timestamp` to turn a civil date
/// and time into seconds since the Unix epoch: the result depends on the
/// six fields alone, and is `None` exactly where chrono refuses them.
#[verifier::external_body]
fn civil_to_unix_time(year: i32, month: u32, day: u32, hour: u32, minute: u32, second: u32) -> (r:
    Option<i64>)
    ensures
        unix_time_of(
            year as int,
            month as int,
            day as int,
            hour as int,
            minute as int,
            second as int,
        ) == (match r {
            Some(t) => Some(t as int),
            None => None::<int>,
        }),
{
    match chrono::NaiveDate::from_ymd_opt(year, month, day) {
        Some(d) => match d.and_hms_opt(hour, minute, second) {
            Some(ndt) => Some(ndt.and_utc().timestamp()),
            None => None,
        },
        None => None,
    }
}

/// The Unix seconds a file date is shown as: the epoch where the catalog
/// reported no date or an invalid one.
pub open spec fn spec_date_seconds(d: Option<CivilTime>) -> int {
    match d {
        None => 0,
        Some(ct) => match unix_time_of(
            ct.year as int,
            ct.month as int,
            ct.day as int,
            ct.hour as int,
            ct.minute as int,
            ct.second as int,
        ) {
            Some(t) => t,
            None => 0,
        },
    }
}

/// The alias columns of one catalog row.
pub struct AliasRow {
    pub reference_index: u32,
    pub alias_index: u32,
    pub file_number: u32,
    pub name: String,
    pub alias_directory: bool,
    pub system_created: bool,
}

/// The alias columns joined with the file columns; the file columns are
/// absent where the alias has no file row.
pub struct AliasFileRow {
    pub alias: AliasRow,
    pub bytes: Option<u64>,
    pub blocks: Option<u64>,
    pub creation_date: Option<CivilTime>,
    pub modification_date: Option<CivilTime>,
}

/// One alias of the catalog, with the file columns where they were
/// queried.
pub struct AsmAlias {
    pub reference_index: u32,
    pub alias_index: u32,
    pub file_number: u32,
    pub name: String,
    pub alias_directory: bool,
    pub system_created: bool,
    pub bytes: Option<u64>,
    pub blocks: Option<u64>,
    pub creation_date: Option<CivilTime>,
    pub modification_date: Option<CivilTime>,
}

/// The kind an alias is shown as: a directory if the catalog says so, a
/// regular file if the system created it, otherwise a symbolic link to the
/// system-created alias of the same file.
pub open spec fn spec_alias_kind(alias_directory: bool, system_created: bool) -> FileKind {
    if alias_directory {
        FileKind::Directory
    } else if system_created {
        FileKind::RegularFile
    } else {
        FileKind::Symlink
    }
}

/// The POSIX-like attribute record handed to the kernel bridge.  Times are
/// seconds since the Unix epoch.
#[derive(Clone, Copy, Debug, PartialEq, Eq, Structural)]
pub struct FileAttr {
    pub ino: u64,
    pub size: u64,
    pub blocks: u64,
    pub atime: i64,
    pub mtime: i64,
    pub ctime: i64,
    pub crtime: i64,
    pub kind: FileKind,
    pub perm: u16,
    pub nlink: u32,
    pub uid: u32,
    pub gid: u32,
    pub rdev: u32,
    pub flags: u32,
    pub blksize: u32,
}

impl AsmAlias {
    /// Builds the record from an alias row joined with its file columns.
    pub fn from_row_file(row: AliasFileRow) -> (r: AsmAlias)
        ensures
            r.reference_index == row.alias.reference_index,
            r.alias_index == row.alias.alias_index,
            r.file_number == row.alias.file_number,
            r.name@ == row.alias.name@,
            r.alias_directory == row.alias.alias_directory,
            r.system_created == row.alias.system_created,
            r.bytes == row.bytes,
            r.blocks == row.blocks,
            r.creation_date == row.creation_date,
            r.modification_date == row.modification_date,
    {
        AsmAlias {
            reference_index: row.alias.reference_index,
            alias_index: row.alias.alias_index,
            file_number: row.alias.file_number,
            name: row.alias.name,
            alias_directory: row.alias.alias_directory,
            system_created: row.alias.system_created,
            bytes: row.bytes,
            blocks: row.blocks,
            creation_date: row.creation_date,
            modification_date: row.modification_date,
        }
    }

    /// Builds the record from a bare alias row: the file columns are
    /// absent.
    pub fn from_row_alias(row: AliasRow) -> (r: AsmAlias)
        ensures
            r.reference_index == row.reference_index,
            r.alias_index == row.alias_index,
            r.file_number == row.file_number,
            r.name@ == row.name@,
            r.alias_directory == row.alias_directory,
            r.system_created == row.system_created,
            r.bytes is None,
            r.blocks is None,
            r.creation_date is None,
            r.modification_date is None,
    {
        AsmAlias {
            reference_index: row.reference_index,
            alias_index: row.alias_index,
            file_number: row.file_number,
            name: row.name,
            alias_directory: row.alias_directory,
            system_created: row.system_created,
            bytes: None,
            blocks: None,
            creation_date: None,
            modification_date: None,
        }
    }

    /// The inode that addresses this alias.
    pub fn get_inode(&self) -> (r: Inode)
        ensures
            r@ == spec_from_alias(self.reference_index, self.alias_index),
    {
        Inode::from_alias(self.reference_index, self.alias_index)
    }

    /// The kind this alias is shown as.
    pub fn get_ftype(&self) -> (r: FileKind)
        ensures
            r == spec_alias_kind(self.alias_directory, self.system_created),
    {
        if self.alias_directory {
            FileKind::Directory
        } else {
            if self.system_created {
                FileKind::RegularFile
            } else {
                FileKind::Symlink
            }
        }
    }

    /// The creation date in Unix seconds, the epoch where absent.
    pub fn get_creation_date(&self) -> (r: i64)
        ensures
            r as int == spec_date_seconds(self.creation_date),
    {
        match self.creation_date {
            None => 0,
            Some(ct) => match civil_to_unix_time(
                ct.year,
                ct.month,
                ct.day,
                ct.hour,
                ct.minute,
                ct.second,
            ) {
                Some(t) => t,
                None => 0,
            },
        }
    }

    /// The modification date in Unix seconds, the epoch where absent.
    pub fn get_modification_date(&self) -> (r: i64)
        ensures
            r as int == spec_date_seconds(self.modification_date),
    {
        match self.modification_date {
            None => 0,
            Some(ct) => match civil_to_unix_time(
                ct.year,
                ct.month,
                ct.day,
                ct.hour,
                ct.minute,
                ct.second,
            ) {
                Some(t) => t,
                None => 0,
            },
        }
    }

    /// The attribute record of this alias: sizes and dates from the file
    /// columns where present, everything else synthesized.
    pub fn get_file_attr(&self) -> (r: FileAttr)
        ensures
            r.ino == spec_from_alias(self.reference_index, self.alias_index),
            r.size == (match self.bytes {
                Some(b) => b,
                None => 0u64,
            }),
            r.blocks == (match self.blocks {
                Some(b) => b,
                None => 0u64,
            }),
            r.atime == 0,
            r.mtime as int == spec_date_seconds(self.modification_date),
            r.ctime as int == spec_date_seconds(self.creation_date),
            r.crtime == 0,
            r.kind == spec_alias_kind(self.alias_directory, self.system_created),
            r.perm == 0o755,
            r.nlink == 1,
            r.uid == 0,
            r.gid == 0,
            r.rdev == 0,
            r.flags == 0,
            r.blksize == 512,
    {
        FileAttr {
            ino: self.get_inode().get_ino(),
            size: match self.bytes {
                Some(b) => b,
                None => 0,
            },
            blocks: match self.blocks {
                Some(b) => b,
                None => 0,
            },
            atime: 0,
            mtime: self.get_modification_date(),
            ctime: self.get_creation_date(),
            crtime: 0,
            kind: self.get_ftype(),
            perm: 0o755,
            nlink: 1,
            uid: 0,
            gid: 0,
            rdev: 0,
            flags: 0,
            blksize: 512,
        }
    }
}

/// The synthetic attributes of the filesystem root: inode 1, a directory
/// with two links, everything else as for group directories.
pub fn root_attr() -> (r: FileAttr)
    ensures
        r.ino == 1,
        r.size == 0,
        r.blocks == 0,
        r.atime == 0 && r.mtime == 0 && r.ctime == 0 && r.crtime == 0,
        r.kind == FileKind::Directory,
        r.perm == 0o755,
        r.nlink == 2,
        r.uid == 0 && r.gid == 0 && r.rdev == 0 && r.flags == 0,
        r.blksize == 512,
{
    FileAttr {
        ino: 1,
        size: 0,
        blocks: 0,
        atime: 0,
        mtime: 0,
        ctime: 0,
        crtime: 0,
        kind: FileKind::Directory,
        perm: 0o755,
        nlink: 2,
        uid: 0,
        gid: 0,
        rdev: 0,
        flags: 0,
        blksize: 512,
    }
}

/// The synthetic attributes of a volume-group directory addressed by a
/// known inode value.
pub fn query_asm_diskgroup_ent_ino(ino: u64) -> (r: FileAttr)
    ensures
        r.ino == ino,
        r.size == 0,
        r.blocks == 0,
        r.atime == 0 && r.mtime == 0 && r.ctime == 0 && r.crtime == 0,
        r.kind == FileKind::Directory,
        r.perm == 0o755,
        r.nlink == 1,
        r.uid == 0 && r.gid == 0 && r.rdev == 0 && r.flags == 0,
        r.blksize == 512,
{
    FileAttr {
        ino,
        size: 0,
        blocks: 0,
        atime: 0,
        mtime: 0,
        ctime: 0,
        crtime: 0,
        kind: FileKind::Directory,
        perm: 0o755,
        nlink: 1,
        uid: 0,
        gid: 0,
        rdev: 0,
        flags: 0,
        blksize: 512,
    }
}

/// The synthetic attributes of the volume-group directory of a group
/// number, as a lookup by name returns them.
pub fn group_dir_attr(group_number: u8) -> (r: FileAttr)
    ensures
        r.ino == spec_from_alias(spec_group_reference_index(group_number), ALIAS_FOR_DG),
        r.size == 0,
        r.blocks == 0,
        r.atime == 0 && r.mtime == 0 && r.ctime == 0 && r.crtime == 0,
        r.kind == FileKind::Directory,
        r.perm == 0o755,
        r.nlink == 1,
        r.uid == 0 && r.gid == 0 && r.rdev == 0 && r.flags == 0,
        r.blksize == 512,
{
    let inode = Inode::from_group_number(group_number);
    query_asm_diskgroup_ent_ino(inode.get_ino())
}

/// The result of the catalog's file-attribute procedure, with the
/// filesystem-visible size: archive logs gain one block for the
/// synthesized trailer, every other type is shown at its catalog size.
pub fn getfileattr_result(filetype: u32, filesize: u64, blksize: u32) -> (r: (u32, u64, u64, u32))
    requires
        filesize + blksize <= u64::MAX,
    ensures
        r.0 == filetype,
        r.1 == filesize,
        r.2 == (if filetype == crate::readeng::FILE_TYPE_ARCHIVELOG {
            filesize + blksize
        } else {
            filesize as int
        }),
        r.3 == blksize,
        filetype == crate::readeng::FILE_TYPE_ARCHIVELOG ==> r.2 - r.1 == blksize,
{
    if filetype == crate::readeng::FILE_TYPE_ARCHIVELOG {
        (filetype, filesize, filesize + blksize as u64, blksize)
    } else {
        (filetype, filesize, filesize, blksize)
    }
}

/// An open file in catalog-mediated mode, beside the session that owns
/// it: sizes are kept in blocks.
pub struct OpenFileHandle {
    pub block_size: u32,
    pub blocks_asm: u64,
    pub blocks_fs: u64,
    pub file_type: u32,
}

impl OpenFileHandle {
    /// Builds the handle from what the catalog's open procedure returned:
    /// the size in bytes becomes whole blocks, and archive logs gain one
    /// block for the synthesized trailer.
    pub fn from_proc_open(block_size: u32, size_asm_bytes: u64, file_type: u32) -> (r:
        OpenFileHandle)
        requires
            block_size >= 1,
            size_asm_bytes < 0x8000_0000_0000_0000,
        ensures
            r.block_size == block_size,
            r.file_type == file_type,
            r.blocks_asm == size_asm_bytes as int / block_size as int,
            r.blocks_fs == r.blocks_asm + (if file_type == crate::readeng::FILE_TYPE_ARCHIVELOG {
                1int
            } else {
                0int
            }),
    {
        let blocks_asm = size_asm_bytes / block_size as u64;
        proof {
            assert(size_asm_bytes as int / block_size as int <= size_asm_bytes as int)
                by (nonlinear_arith)
                requires
                    block_size as int >= 1,
                    size_asm_bytes as int >= 0,
            ;
        }
        let blocks_fs = if file_type == crate::readeng::FILE_TYPE_ARCHIVELOG {
            blocks_asm + 1
        } else {
            blocks_asm
        };
        OpenFileHandle { block_size, blocks_asm, blocks_fs, file_type }
    }

    /// The filesystem-visible size in bytes, trailer block included.
    pub fn bytes_size_fs(&self) -> (r: u64)
        requires
            self.block_size * self.blocks_fs <= u64::MAX,
        ensures
            r == self.block_size * self.blocks_fs,
    {
        proof {
            vstd::arithmetic::mul::lemma_mul_nonnegative(
                self.block_size as int,
                self.blocks_fs as int,
            );
        }
        self.block_size as u64 * self.blocks_fs
    }

    /// The catalog-side size in bytes, without the trailer block.
    pub fn bytes_size_asm(&self) -> (r: u64)
        requires
            self.block_size * self.blocks_asm <= u64::MAX,
        ensures
            r == self.block_size * self.blocks_asm,
    {
        proof {
            vstd::arithmetic::mul::lemma_mul_nonnegative(
                self.block_size as int,
                self.blocks_asm as int,
            );
        }
        self.block_size as u64 * self.blocks_asm
    }
}

/// One entry of a directory listing.
pub struct DirEntry {
    pub ino: u64,
    pub kind: FileKind,
    pub name: String,
}

/// The root listing built from the volume-group rows `(group number,
/// name)`: the two synthetic entries, then one directory per group, in
/// row order.
pub fn query_asm_diskgroup_vec(rows: Vec<(u8, String)>) -> (r: Vec<DirEntry>)
    ensures
        r@.len() == rows@.len() + 2,
        r@[0].ino == 1 && r@[0].kind == FileKind::Directory && r@[0].name@ == "."@,
        r@[1].ino == 1 && r@[1].kind == FileKind::Directory && r@[1].name@ == ".."@,
        forall|j: int|
            0 <= j < rows@.len() ==> {
                &&& (#[trigger] r@[j + 2]).ino == spec_from_alias(
                    spec_group_reference_index(rows@[j].0),
                    ALIAS_FOR_DG,
                )
                &&& r@[j + 2].kind == FileKind::Directory
                &&& r@[j + 2].name@ == rows@[j].1@
            },
{
    let mut r: Vec<DirEntry> = Vec::new();
    r.push(DirEntry { ino: 1, kind: FileKind::Directory, name: String::from_str(".") });
    r.push(DirEntry { ino: 1, kind: FileKind::Directory, name: String::from_str("..") });
    let mut i: usize = 0;
    while i < rows.len()
        invariant
            i <= rows@.len(),
            r@.len() == i + 2,
            r@[0].ino == 1 && r@[0].kind == FileKind::Directory && r@[0].name@ == "."@,
            r@[1].ino == 1 && r@[1].kind == FileKind::Directory && r@[1].name@ == ".."@,
            forall|j: int|
                0 <= j < i ==> {
                    &&& (#[trigger] r@[j + 2]).ino == spec_from_alias(
                        spec_group_reference_index(rows@[j].0),
                        ALIAS_FOR_DG,
                    )
                    &&& r@[j + 2].kind == FileKind::Directory
                    &&& r@[j + 2].name@ == rows@[j].1@
                },
        decreases rows@.len() - i,
    {
        let group_number = rows[i].0;
        let name = rows[i].1.clone();
        let inode = Inode::from_group_number(group_number);
        r.push(DirEntry { ino: inode.get_ino(), kind: FileKind::Directory, name });
        i = i + 1;
    }
    r
}

/// The listing of one directory built from its alias rows: each alias
/// under its packed inode and derived kind, in row order.
pub fn query_asm_alias_vec(rows: &Vec<AliasRow>) -> (r: Vec<DirEntry>)
    ensures
        r@.len() == rows@.len(),
        forall|j: int|
            0 <= j < rows@.len() ==> {
                &&& (#[trigger] r@[j]).ino == spec_from_alias(
                    rows@[j].reference_index,
                    rows@[j].alias_index,
                )
                &&& r@[j].kind == spec_alias_kind(
                    rows@[j].alias_directory,
                    rows@[j].system_created,
                )
                &&& r@[j].name@ == rows@[j].name@
            },
{
    let mut r: Vec<DirEntry> = Vec::new();
    let mut i: usize = 0;
    while i < rows.len()
        invariant
            i <= rows@.len(),
            r@.len() == i,
            forall|j: int|
                0 <= j < i ==> {
                    &&& (#[trigger] r@[j]).ino == spec_from_alias(
                        rows@[j].reference_index,
                        rows@[j].alias_index,
                    )
                    &&& r@[j].kind == spec_alias_kind(
                        rows@[j].alias_directory,
                        rows@[j].system_created,
                    )
                    &&& r@[j].name@ == rows@[j].name@
                },
        decreases rows@.len() - i,
    {
        let inode = Inode::from_alias(rows[i].reference_index, rows[i].alias_index);
        let kind = if rows[i].alias_directory {
            FileKind::Directory
        } else if rows[i].system_created {
            FileKind::RegularFile
        } else {
            FileKind::Symlink
        };
        let name = rows[i].name.clone();
        r.push(DirEntry { ino: inode.get_ino(), kind, name });
        i = i + 1;
    }
    r
}

/// A group name as the catalog stores it: the lookup name with its
/// leading `+` removed.
pub open spec fn spec_strip_group_name(s: Seq<char>) -> Seq<char> {
    if s.len() > 0 && s[0] == '+' {
        s.subrange(1, s.len() as int)
    } else {
        s
    }
}

/// Strips the leading `+` from a volume-group lookup name.
pub fn strip_group_name(name: &str) -> (r: String)
    ensures
        r@ == spec_strip_group_name(name@),
{
    let n = name.unicode_len();
    if n > 0 && name.get_char(0) == '+' {
        String::from_str(name.substring_char(1, n))
    } else {
        String::from_str(name)
    }
}

/// The index of the first occurrence of `c` at or after `i`, if any.
pub open spec fn spec_find_char_from(s: Seq<char>, c: char, i: int) -> Option<int>
    decreases (if s.len() - i >= 0 { s.len() - i } else { 0 })
{
    if i < 0 || i >= s.len() {
        None
    } else if s[i] == c {
        Some(i)
    } else {
        spec_find_char_from(s, c, i + 1)
    }
}

/// Finds the first occurrence of a character.
fn find_char(s: &str, c: char) -> (r: Option<usize>)
    ensures
        match spec_find_char_from(s@, c, 0) {
            None => r is None,
            Some(j) => r matches Some(u) && u as int == j && u < s@.len(),
        },
{
    let n = s.unicode_len();
    let mut i: usize = 0;
    while i < n
        invariant
            n == s@.len(),
            i <= n,
            spec_find_char_from(s@, c, 0) == spec_find_char_from(s@, c, i as int),
        decreases n - i,
    {
        if s.get_char(i) == c {
            return Some(i);
        }
        i = i + 1;
    }
    None
}

/// The parts of a remote connection string `user/pass@inst`: split first
/// at the first `@`, then the left side at its first `/`.
pub open spec fn spec_parse_conn(s: Seq<char>) -> Option<(Seq<char>, Seq<char>, Seq<char>)> {
    match spec_find_char_from(s, '@', 0) {
        None => None,
        Some(i) => {
            let user_pass = s.subrange(0, i);
            let inst = s.subrange(i + 1, s.len() as int);
            match spec_find_char_from(user_pass, '/', 0) {
                None => None,
                Some(j) => Some(
                    (
                        user_pass.subrange(0, j),
                        user_pass.subrange(j + 1, user_pass.len() as int),
                        inst,
                    ),
                ),
            }
        },
    }
}

/// Splits a remote connection string into user, password and instance.
/// A string without `@`, or whose left side has no `/`, is refused.
pub fn parse_conn_str(conn: &str) -> (r: Result<(String, String, String), crate::error::AsmError>)
    ensures
        match spec_parse_conn(conn@) {
            None => r matches Err(e) && e == crate::error::AsmError::InvalidConnectionString,
            Some(t) => r matches Ok(v) && v.0@ == t.0 && v.1@ == t.1 && v.2@ == t.2,
        },
{
    let n = conn.unicode_len();
    let at = match find_char(conn, '@') {
        Some(i) => i,
        None => {
            return Err(crate::error::AsmError::InvalidConnectionString);
        },
    };
    let user_pass = conn.substring_char(0, at);
    let inst = conn.substring_char(at + 1, n);
    let slash = match find_char(user_pass, '/') {
        Some(j) => j,
        None => {
            return Err(crate::error::AsmError::InvalidConnectionString);
        },
    };
    let m = user_pass.unicode_len();
    let user = user_pass.substring_char(0, slash);
    let pass = user_pass.substring_char(slash + 1, m);
    Ok((String::from_str(user), String::from_str(pass), String::from_str(inst)))
}

/// The first index at or after `i` whose character is not `/`, or the
/// length.
pub open spec fn spec_skip_slashes(s: Seq<char>, i: int) -> int
    decreases (if s.len() - i >= 0 { s.len() - i } else { 0 })
{
    if i < 0 || i >= s.len() {
        s.len() as int
    } else if s[i] == '/' {
        spec_skip_slashes(s, i + 1)
    } else {
        i
    }
}

/// The first index at or after `i` whose character is `/`, or the length.
pub open spec fn spec_component_end(s: Seq<char>, i: int) -> int
    decreases (if s.len() - i >= 0 { s.len() - i } else { 0 })
{
    if i < 0 || i >= s.len() {
        s.len() as int
    } else if s[i] == '/' {
        i
    } else {
        spec_component_end(s, i + 1)
    }
}

/// The second non-empty `/`-separated component of a catalog path, where
/// the path has one: in `+GROUP/DBNAME/...` the database unique name.
pub open spec fn spec_db_unique_name(s: Seq<char>) -> Option<Seq<char>> {
    let i1 = spec_skip_slashes(s, 0);
    if i1 >= s.len() {
        None
    } else {
        let e1 = spec_component_end(s, i1);
        let i2 = spec_skip_slashes(s, e1);
        if i2 >= s.len() {
            None
        } else {
            Some(s.subrange(i2, spec_component_end(s, i2)))
        }
    }
}

/// Skips a run of `/` characters.
fn skip_slashes(s: &str, from: usize) -> (r: usize)
    requires
        from <= s@.len(),
    ensures
        r as int == spec_skip_slashes(s@, from as int),
        from <= r <= s@.len(),
{
    let n = s.unicode_len();
    let mut i: usize = from;
    while i < n
        invariant
            n == s@.len(),
            from <= i <= n,
            spec_skip_slashes(s@, from as int) == spec_skip_slashes(s@, i as int),
        decreases n - i,
    {
        if s.get_char(i) != '/' {
            return i;
        }
        i = i + 1;
    }
    i
}

/// Finds the end of the component starting at `from`.
fn component_end(s: &str, from: usize) -> (r: usize)
    requires
        from <= s@.len(),
    ensures
        r as int == spec_component_end(s@, from as int),
        from <= r <= s@.len(),
{
    let n = s.unicode_len();
    let mut i: usize = from;
    while i < n
        invariant
            n == s@.len(),
            from <= i <= n,
            spec_component_end(s@, from as int) == spec_component_end(s@, i as int),
        decreases n - i,
    {
        if s.get_char(i) == '/' {
            return i;
        }
        i = i + 1;
    }
    i
}

/// The database unique name parsed from a catalog path of the form
/// `+GROUP/DBNAME/...`: its second non-empty component.  Paths with fewer
/// than two components yield `None`.
pub fn parse_db_unique_name(src_path: &str) -> (r: Option<String>)
    ensures
        match spec_db_unique_name(src_path@) {
            None => r is None,
            Some(t) => r matches Some(s) && s@ == t,
        },
{
    let i1 = skip_slashes(src_path, 0);
    let n = src_path.unicode_len();
    if i1 >= n {
        return None;
    }
    let e1 = component_end(src_path, i1);
    let i2 = skip_slashes(src_path, e1);
    if i2 >= n {
        return None;
    }
    let e2 = component_end(src_path, i2);
    Some(String::from_str(src_path.substring_char(i2, e2)))
}

} // verus!
