//! Filesystem adapter state.
//!
//! The adapter owns what outlives a single bridge call: the normalized
//! mount point, the chosen read mode and mirror, and the two handle
//! tables.  Every open registers a handle under a 64-bit id — the
//! catalog's own handle in catalog-mediated mode, the inode in raw mode —
//! and every release removes it exactly once.  The directory-listing
//! cookie numbering for resumed listings lives here too.
use std::collections::HashMap;
use vstd::prelude::*;

use crate::catalog::{DirEntry, OpenFileHandle};
use crate::rawread::RawOpenFileHandle;

verus! {

broadcast use vstd::std_specs::hash::group_hash_axioms;

/// The adapter's long-lived state.  The catalog sessions and device
/// descriptors that accompany the handles live with the driver that owns
/// the outside connections.
pub struct AsmFS {
    pub mount_point: String,
    pub use_raw: bool,
    pub mirror: u8,
    pub handles: HashMap<u64, OpenFileHandle>,
    pub handles_raw: HashMap<u64, RawOpenFileHandle>,
}

/// A mount point with exactly one trailing slash appended where it had
/// none.
pub open spec fn spec_normalize_mount_point(s: Seq<char>) -> Seq<char> {
    if s.len() > 0 && s[s.len() - 1] == '/' {
        s
    } else {
        s + seq!['/']
    }
}

impl AsmFS {
    /// Builds the adapter state: the mount point gains a trailing slash
    /// where it lacks one, the handle tables start empty.
    pub fn new(mount_point: String, use_raw: bool, mirror: u8) -> (r: AsmFS)
        ensures
            r.mount_point@ == spec_normalize_mount_point(mount_point@),
            r.use_raw == use_raw,
            r.mirror == mirror,
            r.handles@ == Map::<u64, OpenFileHandle>::empty(),
            r.handles_raw@ == Map::<u64, RawOpenFileHandle>::empty(),
    {
        let ghost mp0 = mount_point@;
        let mut mp = mount_point;
        let n = mp.as_str().unicode_len();
        if n == 0 || mp.as_str().get_char(n - 1) != '/' {
            mp.append("/");
            proof {
                reveal_strlit("/");
                assert(mp@ =~= spec_normalize_mount_point(mp0));
            }
        }
        AsmFS {
            mount_point: mp,
            use_raw,
            mirror,
            handles: HashMap::new(),
            handles_raw: HashMap::new(),
        }
    }

    /// The absolute link target: the mount point prefixed to the
    /// catalog-relative path.
    pub fn readlink_target(&self, target: &str) -> (r: String)
        ensures
            r@ == self.mount_point@ + target@,
    {
        let mut abs = self.mount_point.clone();
        abs.append(target);
        abs
    }

    /// Registers the handle of a freshly opened catalog-mediated file
    /// under the id the catalog returned.
    pub fn register_dbms_handle(&mut self, fh: u64, handle: OpenFileHandle)
        ensures
            final(self).handles@ == old(self).handles@.insert(fh, handle),
            final(self).handles_raw == old(self).handles_raw,
            final(self).mount_point == old(self).mount_point,
            final(self).use_raw == old(self).use_raw,
            final(self).mirror == old(self).mirror,
    {
        self.handles.insert(fh, handle);
    }

    /// Removes a catalog-mediated handle on release, handing it back for
    /// the session teardown.
    pub fn release_dbms_handle(&mut self, fh: u64) -> (r: Option<OpenFileHandle>)
        ensures
            final(self).handles@ == old(self).handles@.remove(fh),
            final(self).handles_raw == old(self).handles_raw,
            final(self).mount_point == old(self).mount_point,
            final(self).use_raw == old(self).use_raw,
            final(self).mirror == old(self).mirror,
            r is Some <==> old(self).handles@.contains_key(fh),
            r matches Some(h) ==> h == old(self).handles@[fh],
    {
        self.handles.remove(&fh)
    }

    /// Looks a catalog-mediated handle up.
    pub fn get_dbms_handle(&self, fh: u64) -> (r: Option<&OpenFileHandle>)
        ensures
            r is Some <==> self.handles@.contains_key(fh),
            r matches Some(h) ==> *h == self.handles@[fh],
    {
        self.handles.get(&fh)
    }

    /// Registers the handle of a freshly opened raw-mode file under its
    /// inode.
    pub fn register_raw_handle(&mut self, ino: u64, handle: RawOpenFileHandle)
        ensures
            final(self).handles_raw@ == old(self).handles_raw@.insert(ino, handle),
            final(self).handles == old(self).handles,
            final(self).mount_point == old(self).mount_point,
            final(self).use_raw == old(self).use_raw,
            final(self).mirror == old(self).mirror,
    {
        self.handles_raw.insert(ino, handle);
    }

    /// Drops a raw-mode handle on release.
    pub fn release_raw_handle(&mut self, ino: u64) -> (r: Option<RawOpenFileHandle>)
        ensures
            final(self).handles_raw@ == old(self).handles_raw@.remove(ino),
            final(self).handles == old(self).handles,
            final(self).mount_point == old(self).mount_point,
            final(self).use_raw == old(self).use_raw,
            final(self).mirror == old(self).mirror,
            r is Some <==> old(self).handles_raw@.contains_key(ino),
    {
        self.handles_raw.remove(&ino)
    }

    /// Looks a raw-mode handle up.
    pub fn get_raw_handle(&self, ino: u64) -> (r: Option<&RawOpenFileHandle>)
        ensures
            r is Some <==> self.handles_raw@.contains_key(ino),
            r matches Some(h) ==> *h == self.handles_raw@[ino],
    {
        self.handles_raw.get(&ino)
    }
}

/// The slice of a directory listing a resumed `readdir` emits: the
/// entries from `offset` on, each under its one-based cookie, in order.
/// The bridge may stop consuming early; what is handed over is this
/// sequence cut short, never reordered.
pub fn readdir_entries(entries: Vec<DirEntry>, offset: u64) -> (r: Vec<(u64, DirEntry)>)
    ensures
        r@.len() == (if offset as int <= entries@.len() {
            entries@.len() - offset as int
        } else {
            0int
        }),
        forall|j: int|
            0 <= j < r@.len() ==> {
                &&& (#[trigger] r@[j]).0 == offset + j + 1
                &&& r@[j].1 == entries@[offset + j]
            },
{
    let mut r: Vec<(u64, DirEntry)> = Vec::new();
    if offset >= entries.len() as u64 {
        return r;
    }
    let mut i: usize = offset as usize;
    while i < entries.len()
        invariant
            offset as int <= i as int <= entries@.len(),
            entries@.len() <= usize::MAX,
            r@.len() == i - offset,
            forall|j: int|
                0 <= j < r@.len() ==> {
                    &&& (#[trigger] r@[j]).0 == offset + j + 1
                    &&& r@[j].1 == entries@[offset + j]
                },
        decreases entries@.len() - i,
    {
        let cookie: u64 = i as u64 + 1;
        let entry = DirEntry {
            ino: entries[i].ino,
            kind: entries[i].kind,
            name: entries[i].name.clone(),
        };
        r.push((cookie, entry));
        i = i + 1;
    }
    r
}

} // verus!
