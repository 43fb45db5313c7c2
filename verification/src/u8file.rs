//! The hierarchical archive container: a tree of named directories and files
//! over one backing byte buffer, with a node-table reader and writer.

use vstd::prelude::*;
use vstd::string::StringSliceAdditionalSpecFns;
use vstd::string::StringExecFns;

use crate::bytes::nul_run;
use crate::bytes::read_u8;
use crate::bytes::read_u24_be;
use crate::bytes::read_u32_be;
use crate::bytes::push_u8;
use crate::bytes::push_u24_be;
use crate::bytes::push_u32_be;
use crate::bytes::spec_u32_at;
use crate::encoding::all_ascii_bytes;
use crate::encoding::ascii_chars;

verus! {

broadcast use vstd::std_specs::vec::group_vec_axioms;

/// One node of the archive tree: a directory with children, or a file whose
/// bytes either reference the backing buffer or are held directly.
#[derive(Debug)]
pub enum Entry {
    DirEntry { name: String, files: Vec<Entry> },
    FileEntry { name: String, data: FileEntry },
}

/// Where a file's bytes live: a (offset, length) window of the backing
/// buffer, or an owned replacement buffer.
#[derive(Debug)]
pub enum FileEntry {
    Ref { offset: u32, length: u32 },
    Data(Vec<u8>),
}

/// Failures while reading an archive.
#[derive(Debug, Clone, Copy, PartialEq, Eq, Structural)]
pub enum U8ParseError {
    UnexpectedEoF,
    InvalidNode,
    InvalidMagic,
    InvalidNodeDecoding,
}

impl U8ParseError {
    /// A short human-readable description of the failure.
    pub fn message(&self) -> (r: &'static str)
    {
        match self {
            U8ParseError::UnexpectedEoF => "unexpected EOF",
            U8ParseError::InvalidNode => "invalid node",
            U8ParseError::InvalidMagic => "invalid magic",
            U8ParseError::InvalidNodeDecoding => "invalid node decoding",
        }
    }
}

/// The archive magic, stored big-endian in the first four bytes.
pub const MAGIC_HEADER: u32 = 0x55AA382D;

/// An archive: its backing bytes as read, and the decoded tree.
#[derive(Debug)]
pub struct U8File {
    data: Vec<u8>,
    root: Vec<Entry>,
}

/// The name bytes of an entry (names are ASCII on well-formed archives).
pub open spec fn entry_name_bytes(e: Entry) -> Seq<u8> {
    match e {
        Entry::DirEntry { name, .. } => vstd::utf8::encode_utf8(name@),
        Entry::FileEntry { name, .. } => vstd::utf8::encode_utf8(name@),
    }
}

/// The first index whose entry is named `seg`, or -1.
pub open spec fn find_idx(files: Seq<Entry>, seg: Seq<u8>) -> int
    decreases files.len(),
{
    if files.len() == 0 {
        -1
    } else if entry_name_bytes(files[0]) == seg {
        0
    } else {
        let r = find_idx(files.drop_first(), seg);
        if r < 0 {
            -1
        } else {
            r + 1
        }
    }
}

/// Follows the path segments `segs[i..]` down the tree: each segment names a
/// child; descending into a file, or a missing name, yields nothing.
pub open spec fn lookup_path(files: Seq<Entry>, segs: Seq<Seq<u8>>, i: int) -> Option<Entry>
    decreases segs.len() - i,
{
    if i < 0 || i >= segs.len() {
        None
    } else {
        let j = find_idx(files, segs[i]);
        if j < 0 {
            None
        } else if i == segs.len() - 1 {
            Some(files[j])
        } else {
            match files[j] {
                Entry::DirEntry { files: sub, .. } => lookup_path(sub@, segs, i + 1),
                Entry::FileEntry { .. } => None,
            }
        }
    }
}

/// The position of the first slash byte, or -1.
pub open spec fn first_slash(b: Seq<u8>) -> int
    decreases b.len(),
{
    if b.len() == 0 {
        -1
    } else if b[0] == 0x2F {
        0
    } else {
        let r = first_slash(b.drop_first());
        if r < 0 {
            -1
        } else {
            r + 1
        }
    }
}

/// The slash-separated segments of a path (an empty path is one empty
/// segment).
pub open spec fn split_slash(b: Seq<u8>) -> Seq<Seq<u8>>
    decreases b.len(),
{
    let i = first_slash(b);
    if i < 0 || i >= b.len() {
        seq![b]
    } else {
        seq![b.subrange(0, i)] + split_slash(b.subrange(i + 1, b.len() as int))
    }
}

/// The segments the lookup walks: a leading empty segment (a path starting
/// with a slash) is ignored.
pub open spec fn path_segments(b: Seq<u8>) -> Seq<Seq<u8>> {
    let s = split_slash(b);
    if s.len() > 0 && s[0].len() == 0 {
        s.drop_first()
    } else {
        s
    }
}

/// A slash at `i` with none before it is the first slash.
proof fn lemma_first_slash_at(b: Seq<u8>, i: int)
    requires
        0 <= i < b.len(),
        b[i] == 0x2F,
        forall|j: int| 0 <= j < i ==> b[j] != 0x2F,
    ensures
        first_slash(b) == i,
    decreases i,
{
    if i > 0 {
        lemma_first_slash_at(b.drop_first(), i - 1);
    }
}

/// Without any slash there is no first slash.
proof fn lemma_first_slash_none(b: Seq<u8>)
    requires
        forall|j: int| 0 <= j < b.len() ==> b[j] != 0x2F,
    ensures
        first_slash(b) < 0,
    decreases b.len(),
{
    if b.len() > 0 {
        lemma_first_slash_none(b.drop_first());
    }
}

/// Splits `b` at its slash bytes.
fn split_bytes(b: &[u8]) -> (r: Vec<Vec<u8>>)
    ensures
        r@.map(|i: int, v: Vec<u8>| v@) == split_slash(b@),
{
    let mut segs: Vec<Vec<u8>> = Vec::new();
    let mut cur: Vec<u8> = Vec::new();
    let mut start: usize = 0;
    let mut i: usize = 0;
    proof {
        assert(b@.subrange(0, b@.len() as int) =~= b@);
        assert(segs@.map(|k: int, v: Vec<u8>| v@) + split_slash(b@) =~~= split_slash(b@));
        assert(cur@ =~= b@.subrange(0, 0));
    }
    while i < b.len()
        invariant
            start <= i <= b@.len(),
            cur@ =~= b@.subrange(start as int, i as int),
            forall|j: int| start <= j < i ==> b@[j] != 0x2F,
            split_slash(b@) =~~= segs@.map(|k: int, v: Vec<u8>| v@) + split_slash(
                b@.subrange(start as int, b@.len() as int),
            ),
        decreases b@.len() - i,
    {
        let c = b[i];
        if c == 0x2F {
            proof {
                let tail = b@.subrange(start as int, b@.len() as int);
                lemma_first_slash_at(tail, i - start);
                assert(tail.subrange(0, i - start) =~= b@.subrange(start as int, i as int));
                assert(tail.subrange(i - start + 1, tail.len() as int) =~= b@.subrange(
                    i as int + 1,
                    b@.len() as int,
                ));
            }
            let done = cur;
            segs.push(done);
            proof {
                assert(segs@.map(|k: int, v: Vec<u8>| v@) =~~= segs@.drop_last().map(
                    |k: int, v: Vec<u8>| v@,
                ).push(done@));
            }
            cur = Vec::new();
            start = i + 1;
            i = i + 1;
            assert(cur@ =~= b@.subrange(start as int, i as int));
            assert(split_slash(b@) =~~= segs@.map(|k: int, v: Vec<u8>| v@) + split_slash(
                b@.subrange(start as int, b@.len() as int),
            ));
        } else {
            cur.push(c);
            i = i + 1;
            assert(cur@ =~= b@.subrange(start as int, i as int));
        }
    }
    proof {
        let tail = b@.subrange(start as int, b@.len() as int);
        lemma_first_slash_none(tail);
        assert(tail =~= cur@);
    }
    let done = cur;
    segs.push(done);
    proof {
        assert(segs@.map(|k: int, v: Vec<u8>| v@) =~~= segs@.drop_last().map(
            |k: int, v: Vec<u8>| v@,
        ).push(done@));
        assert(segs@.map(|k: int, v: Vec<u8>| v@) =~~= split_slash(b@));
    }
    segs
}

/// Finds the first entry named `seg`, scanning in order.
fn find_entry<'a>(files: &'a Vec<Entry>, seg: &Vec<u8>) -> (r: Option<&'a Entry>)
    ensures
        match r {
            Some(e) => find_idx(files@, seg@) >= 0 && *e == files@[find_idx(files@, seg@)],
            None => find_idx(files@, seg@) < 0,
        },
{
    let mut i: usize = 0;
    while i < files.len()
        invariant
            i <= files@.len(),
            forall|j: int| 0 <= j < i ==> entry_name_bytes(files@[j]) != seg@,
        decreases files@.len() - i,
    {
        let name = match &files[i] {
            Entry::DirEntry { name, .. } => name,
            Entry::FileEntry { name, .. } => name,
        };
        if bytes_eq(name.as_str().as_bytes(), seg.as_slice()) {
            proof {
                lemma_find_idx_first(files@, seg@, i as int);
            }
            return Some(&files[i]);
        }
        i = i + 1;
    }
    proof {
        lemma_find_idx_none(files@, seg@);
    }
    None
}

/// Whole-slice byte equality.
fn bytes_eq(a: &[u8], b: &[u8]) -> (r: bool)
    ensures
        r == (a@ == b@),
{
    if a.len() != b.len() {
        return false;
    }
    let mut i: usize = 0;
    while i < a.len()
        invariant
            i <= a@.len(),
            a@.len() == b@.len(),
            forall|j: int| 0 <= j < i ==> a@[j] == b@[j],
        decreases a@.len() - i,
    {
        if a[i] != b[i] {
            return false;
        }
        i = i + 1;
    }
    proof {
        assert(a@ =~= b@);
    }
    true
}

/// What a nonnegative or negative `find_idx` means, entry by entry.
proof fn lemma_find_idx_props(files: Seq<Entry>, seg: Seq<u8>)
    ensures
        find_idx(files, seg) >= 0 ==> {
            &&& 0 <= find_idx(files, seg) < files.len()
            &&& entry_name_bytes(files[find_idx(files, seg)]) == seg
            &&& forall|k: int|
                0 <= k < find_idx(files, seg) ==> entry_name_bytes(#[trigger] files[k]) != seg
        },
        find_idx(files, seg) < 0 ==> forall|k: int|
            0 <= k < files.len() ==> entry_name_bytes(#[trigger] files[k]) != seg,
    decreases files.len(),
{
    if files.len() > 0 && entry_name_bytes(files[0]) != seg {
        lemma_find_idx_props(files.drop_first(), seg);
        let r = find_idx(files.drop_first(), seg);
        if r >= 0 {
            assert(files.drop_first()[r] == files[r + 1]);
            assert forall|k: int|
                0 <= k < r + 1 implies entry_name_bytes(#[trigger] files[k]) != seg by {
                if k > 0 {
                    assert(files.drop_first()[k - 1] == files[k]);
                }
            }
        } else {
            assert forall|k: int|
                0 <= k < files.len() implies entry_name_bytes(#[trigger] files[k]) != seg by {
                if k > 0 {
                    assert(files.drop_first()[k - 1] == files[k]);
                }
            }
        }
    }
}

/// The index of the first entry named `seg`, if any.
fn find_entry_index(files: &Vec<Entry>, seg: &Vec<u8>) -> (r: Option<usize>)
    ensures
        match r {
            Some(j) => find_idx(files@, seg@) == j as int,
            None => find_idx(files@, seg@) < 0,
        },
{
    let mut j: usize = 0;
    while j < files.len()
        invariant
            j <= files@.len(),
            forall|k: int| 0 <= k < j ==> entry_name_bytes(files@[k]) != seg@,
        decreases files@.len() - j,
    {
        let name = match &files[j] {
            Entry::DirEntry { name, .. } => name,
            Entry::FileEntry { name, .. } => name,
        };
        if bytes_eq(name.as_str().as_bytes(), seg.as_slice()) {
            proof {
                lemma_find_idx_first(files@, seg@, j as int);
            }
            return Some(j);
        }
        j = j + 1;
    }
    proof {
        lemma_find_idx_none(files@, seg@);
    }
    None
}

/// A first match at `k` pins down `find_idx`.
proof fn lemma_find_idx_first(files: Seq<Entry>, seg: Seq<u8>, k: int)
    requires
        0 <= k < files.len(),
        entry_name_bytes(files[k]) == seg,
        forall|j: int| 0 <= j < k ==> entry_name_bytes(files[j]) != seg,
    ensures
        find_idx(files, seg) == k,
    decreases k,
{
    if k > 0 {
        lemma_find_idx_first(files.drop_first(), seg, k - 1);
    }
}

/// No match anywhere means `find_idx` is negative.
proof fn lemma_find_idx_none(files: Seq<Entry>, seg: Seq<u8>)
    requires
        forall|j: int| 0 <= j < files.len() ==> entry_name_bytes(files[j]) != seg,
    ensures
        find_idx(files, seg) < 0,
    decreases files.len(),
{
    if files.len() > 0 {
        lemma_find_idx_none(files.drop_first(), seg);
    }
}

impl Entry {
    /// The entry is a directory.
    pub fn is_dir(&self) -> (r: bool)
        ensures
            r == (self matches Entry::DirEntry { .. }),
    {
        matches!(self, Entry::DirEntry { .. })
    }

    /// The entry is a file referencing the backing buffer.
    pub fn is_ref(&self) -> (r: bool)
        ensures
            r == (self matches Entry::FileEntry { data: FileEntry::Ref { .. }, .. }),
    {
        matches!(self, Entry::FileEntry { data: FileEntry::Ref { .. }, .. })
    }

    /// The entry is a file holding its own bytes.
    pub fn is_data(&self) -> (r: bool)
        ensures
            r == (self matches Entry::FileEntry { data: FileEntry::Data(..), .. }),
    {
        matches!(self, Entry::FileEntry { data: FileEntry::Data(..), .. })
    }

    /// The entry's name.
    pub fn get_name(&self) -> (r: &String)
        ensures
            vstd::utf8::encode_utf8(r@) == entry_name_bytes(*self),
    {
        match self {
            Entry::DirEntry { name, .. } => name,
            Entry::FileEntry { name, .. } => name,
        }
    }
}

/// Reads the node at `pos`: a directory node or a file node.
fn read_raw_node(data: &[u8], pos: u64) -> (r: Result<(u8, u32, u32, u32), U8ParseError>)
    ensures
        r matches Ok(n) ==> {
            &&& pos + 12 <= data@.len()
            &&& (n.0 == 0 || n.0 == 1)
            &&& n.1 == crate::bytes::spec_u24_at(data@, pos as int + 1)
            &&& n.1 < 0x1000000
            &&& n.2 == spec_u32_at(data@, pos as int + 4)
            &&& n.3 == spec_u32_at(data@, pos as int + 8)
        },
        r matches Err(e) ==> e != U8ParseError::InvalidMagic,
{
    if pos > data.len() as u64 || (data.len() as u64) - pos < 12 {
        return Err(U8ParseError::UnexpectedEoF);
    }
    let node_type = read_u8(data, pos);
    if node_type != 0 && node_type != 1 {
        return Err(U8ParseError::InvalidNode);
    }
    let string_offset = read_u24_be(data, pos + 1);
    let a = read_u32_be(data, pos + 4);
    let b = read_u32_be(data, pos + 8);
    Ok((node_type, string_offset, a, b))
}

/// Reads the nul-terminated ASCII name at `pos`.
fn read_ascii(data: &[u8], pos: u64) -> (r: Result<String, U8ParseError>)
    ensures
        r matches Ok(s) ==> pos <= data@.len() && all_ascii_bytes(nul_run(data@, pos as int))
            && s@ == ascii_chars(nul_run(data@, pos as int)),
        r matches Err(e) ==> e != U8ParseError::InvalidMagic,
{
    if pos > data.len() as u64 {
        return Err(U8ParseError::UnexpectedEoF);
    }
    let buf = match crate::bytes::read_nul_terminated(data, pos) {
        Some(v) => v,
        None => {
            return Err(U8ParseError::UnexpectedEoF);
        },
    };
    let mut i: usize = 0;
    while i < buf.len()
        invariant
            i <= buf@.len(),
            forall|j: int| 0 <= j < i ==> buf@[j] < 0x80,
        decreases buf@.len() - i,
    {
        if buf[i] >= 0x80 {
            return Err(U8ParseError::InvalidNodeDecoding);
        }
        i = i + 1;
    }
    proof {
        crate::bytes::lemma_nul_run_nonzero(data@, pos as int);
        crate::bytes::lemma_nul_run_whole(buf@);
    }
    match crate::encoding::decode(buf.as_slice()) {
        Some(s) => Ok(s),
        None => Err(U8ParseError::InvalidNodeDecoding),
    }
}

/// Reads the nodes `[start_idx, end_index)` into a tree; a directory node's
/// `next_parent_index` must advance past the node itself and stay inside the
/// range.
fn read_nodes_recursive(
    data: &[u8],
    start_idx: u32,
    end_index: u32,
    first_node_offset: u64,
    string_pool_offset: u64,
) -> (r: Result<Vec<Entry>, U8ParseError>)
    ensures
        r matches Err(e) ==> e != U8ParseError::InvalidMagic,
    decreases end_index - start_idx,
{
    let mut files: Vec<Entry> = Vec::new();
    let mut cur_idx = start_idx;
    while cur_idx < end_index
        invariant
            start_idx <= cur_idx,
        decreases end_index - cur_idx,
    {
        if first_node_offset > u64::MAX - 48 - (cur_idx as u64) * 12 || string_pool_offset
            > u64::MAX - 0x100_0000 {
            return Err(U8ParseError::UnexpectedEoF);
        }
        let node_pos: u64 = first_node_offset + (cur_idx as u64) * 12;
        let (typ, string_offset, a, b) = match read_raw_node(data, node_pos) {
            Ok(n) => n,
            Err(e) => {
                return Err(e);
            },
        };
        let node_name = match read_ascii(data, string_pool_offset + string_offset as u64) {
            Ok(s) => s,
            Err(e) => {
                return Err(e);
            },
        };
        if typ == 1 {
            // directory: `b` is the index one past its last descendant
            let next_parent_index = b;
            if next_parent_index <= cur_idx || next_parent_index > end_index {
                return Err(U8ParseError::InvalidNode);
            }
            let sub = match read_nodes_recursive(
                data,
                cur_idx + 1,
                next_parent_index,
                first_node_offset,
                string_pool_offset,
            ) {
                Ok(v) => v,
                Err(e) => {
                    return Err(e);
                },
            };
            files.push(Entry::DirEntry { name: node_name, files: sub });
            cur_idx = next_parent_index;
        } else {
            files.push(
                Entry::FileEntry { name: node_name, data: FileEntry::Ref { offset: a, length: b } },
            );
            cur_idx = cur_idx + 1;
        }
    }
    Ok(files)
}

impl U8File {
    /// Decodes an archive from its bytes; the backing buffer is kept so that
    /// file references can be resolved later.
    pub fn from_vec(v: Vec<u8>) -> (r: Result<Self, U8ParseError>)
        ensures
            r matches Ok(f) ==> f.spec_data() == v@,
            v@.len() < 8 ==> r == Err::<U8File, U8ParseError>(U8ParseError::UnexpectedEoF),
            r == Err::<U8File, U8ParseError>(U8ParseError::InvalidMagic) <==> (v@.len() >= 8
                && spec_u32_at(v@, 0) != MAGIC_HEADER),
    {
        if v.len() < 8 {
            return Err(U8ParseError::UnexpectedEoF);
        }
        let header = read_u32_be(v.as_slice(), 0);
        if header != MAGIC_HEADER {
            return Err(U8ParseError::InvalidMagic);
        }
        let first_node_offset = read_u32_be(v.as_slice(), 4);
        let (typ, _soff, _a, total_node_count) = match read_raw_node(
            v.as_slice(),
            first_node_offset as u64,
        ) {
            Ok(n) => n,
            Err(e) => {
                return Err(e);
            },
        };
        if typ != 1 {
            return Err(U8ParseError::InvalidNode);
        }
        let string_pool_offset: u64 = first_node_offset as u64 + (total_node_count as u64) * 12;
        let root = match read_nodes_recursive(
            v.as_slice(),
            1,
            total_node_count,
            first_node_offset as u64,
            string_pool_offset,
        ) {
            Ok(r) => r,
            Err(e) => {
                return Err(e);
            },
        };
        Ok(U8File { root, data: v })
    }

    /// The backing bytes as read.
    pub closed spec fn spec_data(&self) -> Seq<u8> {
        self.data@
    }

    /// The decoded tree.
    pub closed spec fn spec_root(&self) -> Seq<Entry> {
        self.root@
    }

    /// The top-level entries.
    pub fn get_root_entry(&self) -> (r: &Vec<Entry>)
        ensures
            r@ == self.spec_root(),
    {
        &self.root
    }

    /// The backing bytes.
    pub fn get_data(&self) -> (r: &Vec<u8>)
        ensures
            r@ == self.spec_data(),
    {
        &self.data
    }

    /// A window of the backing bytes.
    pub fn get_data_from_offset_len(&self, offset: u32, length: u32) -> (r: &[u8])
        requires
            offset + length <= self.spec_data().len(),
        ensures
            r@ == self.spec_data().subrange(offset as int, offset as int + length as int),
    {
        let n = self.data.len();
        assert(self.spec_data().len() <= usize::MAX);
        let s = self.data.as_slice();
        vstd::slice::slice_subrange(s, offset as usize, offset as usize + length as usize)
    }

    /// The bytes of a file entry: its own buffer, or its window of the
    /// backing bytes; nothing for a directory or an out-of-range reference.
    pub fn get_data_from_entry<'a>(&'a self, entry: &'a Entry) -> (r: Option<&'a [u8]>)
        ensures
            r matches Some(b) ==> match *entry {
                Entry::FileEntry { data: FileEntry::Data(d), .. } => b@ == d@,
                Entry::FileEntry { data: FileEntry::Ref { offset, length }, .. } => b@
                    == self.spec_data().subrange(offset as int, offset as int + length as int),
                Entry::DirEntry { .. } => false,
            },
            r is None <==> match *entry {
                Entry::DirEntry { .. } => true,
                Entry::FileEntry { data: FileEntry::Ref { offset, length }, .. } => offset + length
                    > self.spec_data().len(),
                Entry::FileEntry { data: FileEntry::Data(..), .. } => false,
            },
    {
        match entry {
            Entry::DirEntry { .. } => None,
            Entry::FileEntry { data: FileEntry::Data(d), .. } => Some(d.as_slice()),
            Entry::FileEntry { data: FileEntry::Ref { offset, length }, .. } => {
                let off = *offset;
                let ln = *length;
                if off as u64 > self.data.len() as u64 || ln as u64 > self.data.len() as u64 - (off
                    as u64) {
                    return None;
                }
                Some(
                    vstd::slice::slice_subrange(
                        self.data.as_slice(),
                        off as usize,
                        off as usize + ln as usize,
                    ),
                )
            },
        }
    }

    /// Follows a slash-separated path down the tree; a leading slash is
    /// ignored.
    pub fn get_entry<'a>(&'a self, path: &str) -> (r: Option<&'a Entry>)
        ensures
            match r {
                Some(e) => lookup_path(self.spec_root(), path_segments(path.spec_bytes()), 0)
                    == Some(*e),
                None => lookup_path(self.spec_root(), path_segments(path.spec_bytes()), 0)
                    is None,
            },
    {
        let segs = split_bytes(path.as_bytes());
        let mut segs = segs;
        if segs.len() > 0 && segs[0].len() == 0 {
            let _ = segs.remove(0);
            proof {
                assert(segs@.map(|k: int, v: Vec<u8>| v@) =~~= path_segments(path.spec_bytes()));
            }
        } else {
            proof {
                assert(segs@.map(|k: int, v: Vec<u8>| v@) =~~= path_segments(path.spec_bytes()));
            }
        }
        let ghost sview = segs@.map(|k: int, v: Vec<u8>| v@);
        let mut files: &Vec<Entry> = &self.root;
        let mut i: usize = 0;
        while i < segs.len()
            invariant
                i <= segs@.len(),
                sview == segs@.map(|k: int, v: Vec<u8>| v@),
                sview == path_segments(path.spec_bytes()),
                sview.len() == segs@.len(),
                forall|k: int| 0 <= k < segs@.len() ==> sview[k] == (#[trigger] segs@[k])@,
                lookup_path(self.spec_root(), sview, 0) == lookup_path(files@, sview, i as int),
            decreases segs@.len() - i,
        {
            let e = match find_entry(files, &segs[i]) {
                Some(e) => e,
                None => {
                    return None;
                },
            };
            if i == segs.len() - 1 {
                return Some(e);
            }
            match e {
                Entry::DirEntry { files: sub, .. } => {
                    files = sub;
                },
                Entry::FileEntry { .. } => {
                    return None;
                },
            }
            i = i + 1;
        }
        None
    }

    /// The bytes of the file at `path`, when the path names a file.
    pub fn get_entry_data<'a>(&'a self, path: &str) -> (r: Option<&'a [u8]>)
        ensures
            r matches Some(b) ==> match lookup_path(
                self.spec_root(),
                path_segments(path.spec_bytes()),
                0,
            ) {
                Some(Entry::FileEntry { data: FileEntry::Data(d), .. }) => b@ == d@,
                Some(Entry::FileEntry { data: FileEntry::Ref { offset, length }, .. }) => b@
                    == self.spec_data().subrange(offset as int, offset as int + length as int),
                _ => false,
            },
            r is Some <==> match lookup_path(
                self.spec_root(),
                path_segments(path.spec_bytes()),
                0,
            ) {
                Some(Entry::FileEntry { data: FileEntry::Data(_), .. }) => true,
                Some(Entry::FileEntry { data: FileEntry::Ref { offset, length }, .. }) => offset
                    + length <= self.spec_data().len(),
                _ => false,
            },
    {
        let entry = match self.get_entry(path) {
            Some(e) => e,
            None => {
                return None;
            },
        };
        self.get_data_from_entry(entry)
    }

    /// Replaces the bytes of the file at `path` with an owned buffer: true
    /// exactly when the path names a file entry, which afterwards holds the
    /// new bytes; on false the archive is unchanged. The backing bytes are
    /// never touched.
    pub fn set_entry_data(&mut self, path: &str, new_data: Vec<u8>) -> (r: bool)
        ensures
            final(self).spec_data() == old(self).spec_data(),
            r == (lookup_path(
                old(self).spec_root(),
                path_segments(path.spec_bytes()),
                0,
            ) matches Some(Entry::FileEntry { .. })),
            r ==> (lookup_path(
                final(self).spec_root(),
                path_segments(path.spec_bytes()),
                0,
            ) matches Some(Entry::FileEntry { data: FileEntry::Data(d), .. }) && d@
                == new_data@),
            !r ==> final(self).spec_root() == old(self).spec_root(),
    {
        let segs = split_bytes(path.as_bytes());
        let mut segs = segs;
        if segs.len() > 0 && segs[0].len() == 0 {
            let _ = segs.remove(0);
            proof {
                assert(segs@.map(|k: int, v: Vec<u8>| v@) =~~= path_segments(path.spec_bytes()));
            }
        } else {
            proof {
                assert(segs@.map(|k: int, v: Vec<u8>| v@) =~~= path_segments(path.spec_bytes()));
            }
        }
        if segs.len() == 0 {
            return false;
        }
        set_in_files(&mut self.root, &segs, 0, new_data)
    }

    /// Every file path of the archive, slash-joined from the root, in
    /// depth-first pre-order.
    pub fn get_all_paths(&self) -> (r: Vec<String>)
        ensures
            r@.map(|k: int, s: String| s@) == spec_paths_from(
                Seq::<char>::empty(),
                self.spec_root(),
                0,
            ),
    {
        let mut result: Vec<String> = Vec::new();
        proof {
            reveal_strlit("");
            assert(""@ =~= Seq::<char>::empty());
        }
        collect_paths_rec("", &self.root, &mut result);
        proof {
            assert(result@.map(|k: int, s: String| s@) =~~= spec_paths_from(
                Seq::<char>::empty(),
                self.spec_root(),
                0,
            ));
        }
        result
    }

    /// Serializes the archive: header, node table, string pool, and the file
    /// contents aligned to 32-byte boundaries.
    pub fn write(&self) -> (out: Vec<u8>)
        ensures
            out@.len() >= 0x20,
            out@[0] == 0x55u8 && out@[1] == 0xAAu8 && out@[2] == 0x38u8 && out@[3] == 0x2Du8,
            out@[4] == 0u8 && out@[5] == 0u8 && out@[6] == 0u8 && out@[7] == 0x20u8,
    {
        let mut nodes: Vec<RebuildEntry> = Vec::new();
        let mut string_pool: Vec<u8> = Vec::new();
        nodes.push(RebuildEntry::Dir { parent: 0, str_offset: 0, next_parent: 0 });
        string_pool.push(0);
        let mut data_offset: u64 = 0;
        do_rebuild_rec(&self.root, 0, &mut data_offset, &mut nodes, &mut string_pool);
        let next_parent_pos = nodes.len() as u64;
        let first = RebuildEntry::Dir {
            parent: 0,
            str_offset: 0,
            next_parent: next_parent_pos,
        };
        if nodes.len() > 0 {
            nodes.set(0, first);
        }

        let mut w: Vec<u8> = Vec::new();
        push_u32_be(&mut w, MAGIC_HEADER);
        push_u32_be(&mut w, 0x20);
        let nl: u64 = nodes.len() as u64;
        let spl: u64 = string_pool.len() as u64;
        let node_and_string_pool_size: u64 = if nl <= 0xFFFF_FFFF && spl <= 0xFFFF_FFFF {
            nl * 12 + spl
        } else {
            0xFFFF_FFFF
        };
        #[verifier::truncate]
        let nsp32 = node_and_string_pool_size as u32;
        push_u32_be(&mut w, nsp32);
        let unpadded_data_offset: u64 = 0x20 + node_and_string_pool_size;
        let pad0 = crate::bytes::pad_len(unpadded_data_offset, 32);
        let base_data_offset: u64 = unpadded_data_offset + pad0;
        #[verifier::truncate]
        let bdo32 = base_data_offset as u32;
        push_u32_be(&mut w, bdo32);
        proof {
            assert((0x55AA382Du32 >> 24) as u8 == 0x55 && (0x55AA382Du32 >> 16) as u8 == 0xAA
                && (0x55AA382Du32 >> 8) as u8 == 0x38 && 0x55AA382Du32 as u8 == 0x2D
                && (0x20u32 >> 24) as u8 == 0 && (0x20u32 >> 16) as u8 == 0 && (0x20u32 >> 8)
                as u8 == 0 && 0x20u32 as u8 == 0x20) by (bit_vector);
        }
        let mut k: usize = 0;
        while k < 16
            invariant
                w@.len() == 16 + k,
                w@[0] == 0x55u8 && w@[1] == 0xAAu8 && w@[2] == 0x38u8 && w@[3] == 0x2Du8,
                w@[4] == 0u8 && w@[5] == 0u8 && w@[6] == 0u8 && w@[7] == 0x20u8,
            decreases 16 - k,
        {
            push_u8(&mut w, 0);
            k = k + 1;
        }
        // node table
        let mut i: usize = 0;
        while i < nodes.len()
            invariant
                w@.len() >= 0x20,
                w@[0] == 0x55u8 && w@[1] == 0xAAu8 && w@[2] == 0x38u8 && w@[3] == 0x2Du8,
                w@[4] == 0u8 && w@[5] == 0u8 && w@[6] == 0u8 && w@[7] == 0x20u8,
            decreases nodes@.len() - i,
        {
            match &nodes[i] {
                RebuildEntry::Dir { str_offset, parent, next_parent } => {
                    push_u8(&mut w, 1);
                    #[verifier::truncate]
                    let so = *str_offset as u32;
                    push_u24_be(&mut w, so & 0xFF_FFFF);
                    #[verifier::truncate]
                    let pa = *parent as u32;
                    push_u32_be(&mut w, pa);
                    #[verifier::truncate]
                    let np = *next_parent as u32;
                    push_u32_be(&mut w, np);
                },
                RebuildEntry::FileRef { str_offset, length, new_offset, .. } => {
                    push_u8(&mut w, 0);
                    #[verifier::truncate]
                    let so = *str_offset as u32;
                    push_u24_be(&mut w, so & 0xFF_FFFF);
                    let no = *new_offset;
                    let dof64: u64 = if no <= u64::MAX - base_data_offset {
                        base_data_offset + no
                    } else {
                        u64::MAX
                    };
                    #[verifier::truncate]
                    let dof = dof64 as u32;
                    push_u32_be(&mut w, dof);
                    push_u32_be(&mut w, *length);
                },
                RebuildEntry::FileData { str_offset, new_offset, data } => {
                    push_u8(&mut w, 0);
                    #[verifier::truncate]
                    let so = *str_offset as u32;
                    push_u24_be(&mut w, so & 0xFF_FFFF);
                    let no = *new_offset;
                    let dof64: u64 = if no <= u64::MAX - base_data_offset {
                        base_data_offset + no
                    } else {
                        u64::MAX
                    };
                    #[verifier::truncate]
                    let dof = dof64 as u32;
                    push_u32_be(&mut w, dof);
                    let dlen = data.len();
                    #[verifier::truncate]
                    let dlen32 = dlen as u32;
                    push_u32_be(&mut w, dlen32);
                },
            }
            i = i + 1;
        }
        // string pool
        let mut i: usize = 0;
        while i < string_pool.len()
            invariant
                w@.len() >= 0x20,
                w@[0] == 0x55u8 && w@[1] == 0xAAu8 && w@[2] == 0x38u8 && w@[3] == 0x2Du8,
                w@[4] == 0u8 && w@[5] == 0u8 && w@[6] == 0u8 && w@[7] == 0x20u8,
            decreases string_pool@.len() - i,
        {
            push_u8(&mut w, string_pool[i]);
            i = i + 1;
        }
        // file contents, each aligned to a 32-byte boundary
        let mut i: usize = 0;
        while i < nodes.len()
            invariant
                w@.len() >= 0x20,
                w@[0] == 0x55u8 && w@[1] == 0xAAu8 && w@[2] == 0x38u8 && w@[3] == 0x2Du8,
                w@[4] == 0u8 && w@[5] == 0u8 && w@[6] == 0u8 && w@[7] == 0x20u8,
            decreases nodes@.len() - i,
        {
            if w.len() as u64 <= u64::MAX - 64 {
                let pad = crate::bytes::pad_len(w.len() as u64, 32);
                let mut p: u64 = 0;
                while p < pad
                    invariant
                        w@.len() >= 0x20,
                        w@[0] == 0x55u8 && w@[1] == 0xAAu8 && w@[2] == 0x38u8 && w@[3] == 0x2Du8,
                        w@[4] == 0u8 && w@[5] == 0u8 && w@[6] == 0u8 && w@[7] == 0x20u8,
                    decreases pad - p,
                {
                    push_u8(&mut w, 0);
                    p = p + 1;
                }
            }
            match &nodes[i] {
                RebuildEntry::Dir { .. } => {},
                RebuildEntry::FileData { data, .. } => {
                    let mut j: usize = 0;
                    while j < data.len()
                        invariant
                            w@.len() >= 0x20,
                            w@[0] == 0x55u8 && w@[1] == 0xAAu8 && w@[2] == 0x38u8 && w@[3] == 0x2Du8,
                            w@[4] == 0u8 && w@[5] == 0u8 && w@[6] == 0u8 && w@[7] == 0x20u8,
                        decreases data@.len() - j,
                    {
                        push_u8(&mut w, data[j]);
                        j = j + 1;
                    }
                },
                RebuildEntry::FileRef { offset, length, .. } => {
                    let off = *offset;
                    let ln = *length;
                    let mut j: u64 = 0;
                    while j < ln as u64
                        invariant
                            w@.len() >= 0x20,
                            w@[0] == 0x55u8 && w@[1] == 0xAAu8 && w@[2] == 0x38u8 && w@[3] == 0x2Du8,
                            w@[4] == 0u8 && w@[5] == 0u8 && w@[6] == 0u8 && w@[7] == 0x20u8,
                        decreases ln as u64 - j,
                    {
                        let p = off as u64 + j;
                        if p < self.data.len() as u64 {
                            push_u8(&mut w, self.data[p as usize]);
                        } else {
                            push_u8(&mut w, 0);
                        }
                        j = j + 1;
                    }
                },
            }
            i = i + 1;
        }
        w
    }
}

/// The slash-joined file paths below `prefix`, over `files[i..]`, in
/// depth-first pre-order: directories contribute their subtrees, files one
/// path each.
pub open spec fn spec_paths_from(prefix: Seq<char>, files: Seq<Entry>, i: int) -> Seq<Seq<char>>
    decreases files, files.len() - i,
{
    if i < 0 || i >= files.len() {
        seq![]
    } else {
        (match files[i] {
            Entry::FileEntry { name, .. } => seq![prefix + seq!['/'] + name@],
            Entry::DirEntry { name, files: sub } => spec_paths_from(
                prefix + seq!['/'] + name@,
                sub@,
                0,
            ),
        }) + spec_paths_from(prefix, files, i + 1)
    }
}

/// Whether the remaining segments resolve to a file entry, without touching
/// anything.
fn path_is_file(files: &Vec<Entry>, segs: &Vec<Vec<u8>>, idx: usize) -> (r: bool)
    requires
        idx < segs@.len(),
    ensures
        r == (lookup_path(
            files@,
            segs@.map(|k: int, v: Vec<u8>| v@),
            idx as int,
        ) matches Some(Entry::FileEntry { .. })),
    decreases segs@.len() - idx,
{
    let nseg = segs.len();
    proof {
        assert(segs@.map(|k: int, v: Vec<u8>| v@)[idx as int] == segs@[idx as int]@);
    }
    let e = match find_entry(files, &segs[idx]) {
        Some(e) => e,
        None => {
            return false;
        },
    };
    if idx + 1 == nseg {
        matches!(e, Entry::FileEntry { .. })
    } else {
        match e {
            Entry::DirEntry { files: sub, .. } => path_is_file(sub, segs, idx + 1),
            Entry::FileEntry { .. } => false,
        }
    }
}

/// Replaces the file named by `segs[idx..]` under `files`: true exactly
/// when the remaining segments resolve to a file entry, which then holds the
/// new bytes; on false nothing changes.
fn set_in_files(files: &mut Vec<Entry>, segs: &Vec<Vec<u8>>, idx: usize, new_data: Vec<u8>) -> (r:
    bool)
    requires
        idx < segs@.len(),
    ensures
        final(files)@.len() == old(files)@.len(),
        r == (lookup_path(
            old(files)@,
            segs@.map(|k: int, v: Vec<u8>| v@),
            idx as int,
        ) matches Some(Entry::FileEntry { .. })),
        r ==> (lookup_path(
            final(files)@,
            segs@.map(|k: int, v: Vec<u8>| v@),
            idx as int,
        ) matches Some(Entry::FileEntry { data: FileEntry::Data(d), .. }) && d@ == new_data@),
        !r ==> final(files)@ == old(files)@,
    decreases segs@.len() - idx,
{
    let ghost sview = segs@.map(|k: int, v: Vec<u8>| v@);
    if !path_is_file(files, segs, idx) {
        return false;
    }
    let nseg = segs.len();
    proof {
        assert(sview[idx as int] == segs@[idx as int]@);
        lemma_find_idx_props(files@, sview[idx as int]);
    }
    let j = match find_entry_index(files, &segs[idx]) {
        Some(j) => j,
        None => {
            proof {
                assert(false);
            }
            return false;
        },
    };
    let ghost pre = files@;
    let mut e = files.remove(j);
    if idx + 1 == nseg {
        match e {
            Entry::DirEntry { name, files: sub } => {
                proof {
                    assert(false);
                }
                e = Entry::DirEntry { name, files: sub };
            },
            Entry::FileEntry { name, .. } => {
                e = Entry::FileEntry { name, data: FileEntry::Data(new_data) };
            },
        }
    } else {
        match &mut e {
            Entry::DirEntry { files: sub, .. } => {
                let inner = set_in_files(sub, segs, idx + 1, new_data);
                proof {
                    assert(inner);
                }
            },
            Entry::FileEntry { .. } => {
                proof {
                    assert(false);
                }
            },
        }
    }
    let ghost e_final = e;
    files.insert(j, e);
    proof {
        assert(files@ =~= pre.update(j as int, e_final));
        assert(entry_name_bytes(e_final) == entry_name_bytes(pre[j as int]));
        lemma_find_idx_first(files@, sview[idx as int], j as int);
        assert(find_idx(files@, sview[idx as int]) == j as int);
    }
    true
}

/// Gathers every file's slash-joined path below `dir_stack`, depth first.
fn collect_paths_rec(dir_stack: &str, files: &Vec<Entry>, collector: &mut Vec<String>)
    ensures
        final(collector)@.map(|k: int, s: String| s@) == old(collector)@.map(
            |k: int, s: String| s@,
        ) + spec_paths_from(dir_stack@, files@, 0),
    decreases *files,
{
    proof {
        reveal_strlit("/");
    }
    let mut i: usize = 0;
    while i < files.len()
        invariant
            i <= files@.len(),
            old(collector)@.map(|k: int, s: String| s@) + spec_paths_from(dir_stack@, files@, 0)
                =~~= collector@.map(|k: int, s: String| s@) + spec_paths_from(
                dir_stack@,
                files@,
                i as int,
            ),
        decreases files@.len() - i,
    {
        let entry = &files[i];
        let mut full_name = String::from_str(dir_stack);
        full_name.append("/");
        proof {
            reveal_strlit("/");
            assert(full_name@ =~= dir_stack@ + seq!['/']);
        }
        match entry {
            Entry::DirEntry { name, files: sub, .. } => {
                full_name.append(name.as_str());
                proof {
                    assert(full_name@ =~= dir_stack@ + seq!['/'] + name@);
                }
                collect_paths_rec(full_name.as_str(), sub, collector);
            },
            Entry::FileEntry { name, .. } => {
                full_name.append(name.as_str());
                proof {
                    assert(full_name@ =~= dir_stack@ + seq!['/'] + name@);
                }
                let ghost pre_map = collector@.map(|k: int, s: String| s@);
                let ghost pushed = full_name@;
                collector.push(full_name);
                proof {
                    assert(collector@.map(|k: int, s: String| s@) =~~= pre_map.push(pushed));
                }
            },
        }
        i = i + 1;
        assert(old(collector)@.map(|k: int, s: String| s@) + spec_paths_from(
            dir_stack@,
            files@,
            0,
        ) =~~= collector@.map(|k: int, s: String| s@) + spec_paths_from(
            dir_stack@,
            files@,
            i as int,
        ));
    }
    proof {
        assert(final(collector)@.map(|k: int, s: String| s@) =~~= old(collector)@.map(
            |k: int, s: String| s@,
        ) + spec_paths_from(dir_stack@, files@, 0));
    }
}

/// A flattened node of the writer: directories carry their parent and
/// next-parent indexes, files their relocated data window.
enum RebuildEntry {
    Dir { str_offset: u64, parent: u64, next_parent: u64 },
    FileRef { str_offset: u64, offset: u32, length: u32, new_offset: u64 },
    FileData { str_offset: u64, data: Vec<u8>, new_offset: u64 },
}

/// Flattens the tree depth-first into rebuild entries, assigning string-pool
/// offsets and 32-byte-aligned data offsets as it goes.
fn do_rebuild_rec(
    files: &Vec<Entry>,
    parent: u64,
    data_offset: &mut u64,
    nodes: &mut Vec<RebuildEntry>,
    string_pool: &mut Vec<u8>,
)
    decreases *files,
{
    let mut i: usize = 0;
    while i < files.len()
        decreases files@.len() - i,
    {
        let str_offset = string_pool.len() as u64;
        let entry = &files[i];
        let name = match entry {
            Entry::DirEntry { name, .. } => name,
            Entry::FileEntry { name, .. } => name,
        };
        let nb = name.as_str().as_bytes();
        let mut bi: usize = 0;
        while bi < nb.len()
            decreases nb@.len() - bi,
        {
            string_pool.push(nb[bi]);
            bi = bi + 1;
        }
        string_pool.push(0);
        match entry {
            Entry::DirEntry { files: sub, .. } => {
                let current_entry_pos = nodes.len();
                nodes.push(RebuildEntry::Dir { next_parent: 0, parent, str_offset });
                do_rebuild_rec(sub, current_entry_pos as u64, data_offset, nodes, string_pool);
                let next_parent_pos = nodes.len() as u64;
                if current_entry_pos < nodes.len() {
                    let fixed = RebuildEntry::Dir {
                        next_parent: next_parent_pos,
                        parent,
                        str_offset,
                    };
                    nodes.set(current_entry_pos, fixed);
                }
            },
            Entry::FileEntry { data: FileEntry::Ref { offset, length }, .. } => {
                nodes.push(
                    RebuildEntry::FileRef {
                        length: *length,
                        offset: *offset,
                        str_offset,
                        new_offset: *data_offset,
                    },
                );
                if *data_offset <= u64::MAX - 64 - (*length as u64) {
                    *data_offset = *data_offset + *length as u64;
                    *data_offset = *data_offset + crate::bytes::pad_len(*data_offset, 32);
                }
            },
            Entry::FileEntry { data: FileEntry::Data(d), .. } => {
                let dl = d.len() as u64;
                let mut copied: Vec<u8> = Vec::new();
                let mut ci: usize = 0;
                while ci < d.len()
                    decreases d@.len() - ci,
                {
                    copied.push(d[ci]);
                    ci = ci + 1;
                }
                nodes.push(
                    RebuildEntry::FileData { str_offset, data: copied, new_offset: *data_offset },
                );
                if dl <= u64::MAX - 64 && *data_offset <= u64::MAX - 64 - dl {
                    *data_offset = *data_offset + dl;
                    *data_offset = *data_offset + crate::bytes::pad_len(*data_offset, 32);
                }
            },
        }
        i = i + 1;
    }
}

} // verus!
