//! An inode numbering of an archive tree, for read-only filesystem
//! projections: each directory and file gets a stable 64-bit id.

use vstd::prelude::*;

use crate::u8file::Entry;
use crate::u8file::FileEntry;

verus! {

broadcast use vstd::std_specs::vec::group_vec_axioms;

/// Hands out fresh inode numbers, starting at 1.
pub struct InodeSupplier {
    pub state: u64,
}

impl InodeSupplier {
    /// A supplier whose first number will be 1.
    pub fn new() -> (r: Self)
        ensures
            r.state == 0u64,
    {
        InodeSupplier { state: 0 }
    }

    /// The next fresh inode number.
    pub fn next(&mut self) -> (r: u64)
        requires
            old(self).state < u64::MAX,
        ensures
            final(self).state == old(self).state + 1,
            r == old(self).state + 1,
    {
        self.state = self.state + 1;
        self.state
    }
}

/// One numbered node: a directory holding its children's inodes, or a file
/// with its window of the archive's backing bytes.
#[derive(Debug, Clone, PartialEq, Eq)]
pub enum InodeEntry {
    DirEntry { name: String, files: Vec<u64> },
    FileEntry { name: String, offset: u32, size: u32 },
}

impl InodeEntry {
    /// The node's name.
    pub fn get_name(&self) -> (r: &String)
        ensures
            *self matches InodeEntry::DirEntry { name, .. } ==> *r == name,
            *self matches InodeEntry::FileEntry { name, .. } ==> *r == name,
    {
        match self {
            InodeEntry::DirEntry { name, .. } => name,
            InodeEntry::FileEntry { name, .. } => name,
        }
    }
}

/// Numbers a directory's subtree depth-first; returns the directory's own
/// inode. File entries holding replacement bytes are numbered with a zero
/// window, since only backing-buffer references can be projected.
pub fn construct_inode_map(
    name: &str,
    entries: &Vec<Entry>,
    inode_supplier: &mut InodeSupplier,
    inode_map: &mut Vec<(u64, InodeEntry)>,
) -> (r: u64)
    decreases *entries,
{
    let cur_inode = if inode_supplier.state < u64::MAX {
        inode_supplier.next()
    } else {
        u64::MAX
    };
    let mut child_inodes: Vec<u64> = Vec::new();
    let mut i: usize = 0;
    while i < entries.len()
        decreases entries@.len() - i,
    {
        match &entries[i] {
            Entry::DirEntry { name, files } => {
                let child = construct_inode_map(name.as_str(), files, inode_supplier, inode_map);
                child_inodes.push(child);
            },
            Entry::FileEntry { name, data } => {
                let file_inode = if inode_supplier.state < u64::MAX {
                    inode_supplier.next()
                } else {
                    u64::MAX
                };
                let (offset, size): (u32, u32) = match data {
                    FileEntry::Ref { offset, length } => (*offset, *length),
                    FileEntry::Data(_) => (0, 0),
                };
                inode_map.push(
                    (
                        file_inode,
                        InodeEntry::FileEntry { name: name.clone(), offset, size },
                    ),
                );
                child_inodes.push(file_inode);
            },
        }
        i = i + 1;
    }
    inode_map.push(
        (cur_inode, InodeEntry::DirEntry { name: name.to_owned(), files: child_inodes }),
    );
    cur_inode
}

} // verus!
