//! Open files: what they refer to, and the in-memory cache of their contents.
use vstd::prelude::*;
use crate::address::Address;
use crate::wasi::{ErrNo, FdFlags, FileStat};

verus! {

/// The descriptor of the chain directory (e.g. `/opt/oasis`), which holds `log`
/// and one directory per account.
pub const CHAIN_DIR_FILENO: u32 = 3;

/// The descriptor of the service's home directory.
pub const HOME_DIR_FILENO: u32 = 4;

/// An offset into a file, relative to its start, its end, or the current position.
#[derive(Clone, Copy, PartialEq, Eq, Structural, Debug)]
pub enum SeekFrom {
    Start(u64),
    End(i64),
    Current(i64),
}

/// The sum of the lengths of a list of buffers.
pub open spec fn concat_bufs(bufs: Seq<Seq<u8>>) -> Seq<u8>
    decreases bufs.len(),
{
    if bufs.len() == 0 {
        seq![]
    } else {
        concat_bufs(bufs.drop_last()) + bufs.last()
    }
}

pub open spec fn buf_views(bufs: Seq<Vec<u8>>) -> Seq<Seq<u8>> {
    bufs.map_values(|b: Vec<u8>| b@)
}

/// The position that a seek reaches from `base`, if it is neither negative nor past `u64::MAX`.
pub open spec fn offset_from(base: int, offset: int) -> Option<u64> {
    if 0 <= base + offset <= u64::MAX {
        Some((base + offset) as u64)
    } else {
        None
    }
}

/// The position that seeking to `target` reaches in contents of length `len`
/// from position `pos`.
pub open spec fn spec_seek(len: nat, pos: u64, target: SeekFrom) -> Option<u64> {
    match target {
        SeekFrom::Start(n) => Some(n),
        SeekFrom::End(off) => offset_from(len as int, off as int),
        SeekFrom::Current(off) => offset_from(pos as int, off as int),
    }
}

/// The bytes that buffer `buf` holds after a read that hands it the bytes of `src`
/// from index `start` on.
pub open spec fn read_into(buf: Seq<u8>, src: Seq<u8>, start: int) -> Seq<u8> {
    let avail = if start < src.len() { src.len() - start } else { 0 };
    let k = if buf.len() < avail { buf.len() as int } else { avail };
    let from = if start < src.len() { start } else { src.len() as int };
    src.subrange(from, from + k) + buf.skip(k)
}

proof fn lemma_read_into_len(buf: Seq<u8>, src: Seq<u8>, start: int)
    requires
        0 <= start,
    ensures
        read_into(buf, src, start).len() == buf.len(),
{
}

proof fn lemma_read_into_index(buf: Seq<u8>, src: Seq<u8>, start: int, j: int)
    requires
        0 <= start,
        0 <= j < buf.len(),
    ensures
        read_into(buf, src, start).len() == buf.len(),
        read_into(buf, src, start)[j] == if start + j < src.len() {
            src[start + j]
        } else {
            buf[j]
        },
{
}

/// The buffers after a vectored read of `src`: they are filled in order.
pub open spec fn spec_read_bufs(bufs: Seq<Seq<u8>>, src: Seq<u8>) -> Seq<Seq<u8>> {
    Seq::new(
        bufs.len(),
        |i: int| read_into(bufs[i], src, concat_bufs(bufs.take(i)).len() as int),
    )
}

/// The number of bytes that a vectored read of `src` hands out.
pub open spec fn spec_read_count(bufs: Seq<Seq<u8>>, src: Seq<u8>) -> nat {
    let total = concat_bufs(bufs).len();
    if total < src.len() {
        total
    } else {
        src.len()
    }
}

/// The bytes from position `pos` on (none when `pos` is past the end).
pub open spec fn remaining(data: Seq<u8>, pos: u64) -> Seq<u8> {
    if pos < data.len() {
        data.skip(pos as int)
    } else {
        seq![]
    }
}

/// The contents after writing `src` at position `pos`: a gap before `pos` is zero-filled,
/// and the contents grow to hold what is written.
pub open spec fn spec_write(data: Seq<u8>, pos: int, src: Seq<u8>) -> Seq<u8> {
    let end = pos + src.len();
    let len = if end > data.len() { end } else { data.len() as int };
    Seq::new(
        len as nat,
        |i: int|
            if pos <= i < end {
                src[i - pos]
            } else if i < data.len() {
                data[i]
            } else {
                0u8
            },
    )
}

/// The bytes of the first `i` buffers are no more than the bytes of all of them.
pub proof fn lemma_concat_take_len(bufs: Seq<Seq<u8>>, i: int)
    requires
        0 <= i <= bufs.len(),
    ensures
        concat_bufs(bufs.take(i)).len() <= concat_bufs(bufs).len(),
    decreases bufs.len(),
{
    if i < bufs.len() {
        assert(bufs.take(i) =~= bufs.drop_last().take(i));
        lemma_concat_take_len(bufs.drop_last(), i);
    } else {
        assert(bufs.take(i) =~= bufs);
    }
}

/// A vectored read fills the concatenation of the buffers from the front: byte `j`
/// of it is byte `j` of the source where the source has one, and is left as it was
/// otherwise.
pub proof fn lemma_read_bufs_concat(bufs: Seq<Seq<u8>>, src: Seq<u8>)
    ensures
        concat_bufs(spec_read_bufs(bufs, src)) =~= Seq::new(
            concat_bufs(bufs).len(),
            |j: int|
                if j < src.len() {
                    src[j]
                } else {
                    concat_bufs(bufs)[j]
                },
        ),
    decreases bufs.len(),
{
    if bufs.len() > 0 {
        let init = bufs.drop_last();
        let b = bufs.last();
        lemma_read_bufs_concat(init, src);
        let out = spec_read_bufs(bufs, src);
        assert(out.drop_last() =~= spec_read_bufs(init, src)) by {
            assert forall|i: int| 0 <= i < init.len() implies bufs.take(i) =~= init.take(i) by {}
        }
        assert(bufs.take(init.len() as int) =~= init);
        let s = concat_bufs(init).len() as int;
        assert forall|j: int| 0 <= j < b.len() implies #[trigger] out.last()[j] == if s + j
            < src.len() {
            src[s + j]
        } else {
            b[j]
        } by {
            lemma_read_into_index(b, src, s, j);
        }
        lemma_read_into_len(b, src, s);
    }
}

/// An in-memory file: its bytes and a position.
pub struct Cursor {
    pub data: Vec<u8>,
    pub pos: u64,
}

impl Cursor {
    pub fn new(data: Vec<u8>) -> (c: Cursor)
        ensures
            c.data@ == data@,
            c.pos == 0,
    {
        Cursor { data, pos: 0 }
    }

    /// Moves the position; fails with `Inval` for a negative or overflowing position.
    pub fn seek(&mut self, target: SeekFrom) -> (r: Result<u64, ErrNo>)
        ensures
            final(self).data@ == old(self).data@,
            match spec_seek(old(self).data@.len(), old(self).pos, target) {
                Some(p) => r == Ok::<u64, ErrNo>(p) && final(self).pos == p,
                None => r == Err::<u64, ErrNo>(ErrNo::Inval) && final(self).pos == old(self).pos,
            },
    {
        let (base, off): (u64, i64) = match target {
            SeekFrom::Start(n) => {
                self.pos = n;
                return Ok(n);
            },
            SeekFrom::End(off) => (self.data.len() as u64, off),
            SeekFrom::Current(off) => (self.pos, off),
        };
        let sum: i128 = base as i128 + off as i128;
        if 0 <= sum && sum <= u64::MAX as i128 {
            self.pos = sum as u64;
            Ok(self.pos)
        } else {
            Err(ErrNo::Inval)
        }
    }

    /// Reads into the buffers in order, from the position on; returns the number of bytes read.
    pub fn read_vectored(&mut self, bufs: &mut Vec<Vec<u8>>) -> (n: usize)
        ensures
            final(self).data@ == old(self).data@,
            n == spec_read_count(buf_views(old(bufs)@), remaining(old(self).data@, old(self).pos)),
            final(self).pos == old(self).pos + n,
            buf_views(final(bufs)@) == spec_read_bufs(
                buf_views(old(bufs)@),
                remaining(old(self).data@, old(self).pos),
            ),
    {
        let ghost src = remaining(self.data@, self.pos);
        let ghost orig = buf_views(bufs@);
        let len = self.data.len();
        let start: usize = if self.pos < len as u64 { self.pos as usize } else { len };
        assert(src =~= self.data@.skip(start as int));
        let mut cur: usize = start;
        let mut i: usize = 0;
        while i < bufs.len()
            invariant
                0 <= i <= bufs@.len(),
                bufs@.len() == orig.len(),
                len == self.data@.len(),
                start <= cur <= len,
                src =~= self.data@.skip(start as int),
                cur - start == if concat_bufs(orig.take(i as int)).len() < src.len() {
                    concat_bufs(orig.take(i as int)).len()
                } else {
                    src.len()
                },
                forall|k: int| 0 <= k < i ==> #[trigger] buf_views(bufs@)[k] == spec_read_bufs(orig, src)[k],
                forall|k: int| i <= k < bufs@.len() ==> #[trigger] buf_views(bufs@)[k] == orig[k],
            decreases bufs@.len() - i,
        {
            let ghost before: int = concat_bufs(orig.take(i as int)).len() as int;
            let blen = bufs[i].len();
            assert(buf_views(bufs@)[i as int] == orig[i as int]);
            let mut nb: Vec<u8> = Vec::new();
            let mut j: usize = 0;
            while j < blen
                invariant
                    0 <= i < bufs@.len(),
                    blen == bufs@[i as int]@.len(),
                    orig.len() == bufs@.len(),
                    bufs@[i as int]@ == orig[i as int],
                    0 <= before,
                    0 <= j <= blen,
                    len == self.data@.len(),
                    start <= cur <= len,
                    src =~= self.data@.skip(start as int),
                    cur - start == if before + j < src.len() { before + j } else { src.len() as int },
                    nb@ =~= read_into(orig[i as int], src, before).take(j as int),
                decreases blen - j,
            {
                proof {
                    lemma_read_into_index(orig[i as int], src, before, j as int);
                }
                if cur < len {
                    nb.push(self.data[cur]);
                    cur = cur + 1;
                } else {
                    nb.push(bufs[i][j]);
                }
                j = j + 1;
                assert(nb@ =~= read_into(orig[i as int], src, before).take(j as int));
            }
            proof {
                lemma_read_into_len(orig[i as int], src, before);
            }
            assert(nb@ =~= read_into(orig[i as int], src, before));
            assert(orig.take(i + 1).drop_last() =~= orig.take(i as int));
            let ghost prev = bufs@;
            bufs[i] = nb;
            assert forall|k: int| 0 <= k < i + 1 implies #[trigger] buf_views(bufs@)[k] == spec_read_bufs(orig, src)[k] by {
                if k < i {
                    assert(buf_views(prev)[k] == spec_read_bufs(orig, src)[k]);
                }
            }
            assert forall|k: int| i + 1 <= k < bufs@.len() implies #[trigger] buf_views(bufs@)[k] == orig[k] by {
                assert(buf_views(prev)[k] == orig[k]);
            }
            i = i + 1;
        }
        assert(orig.take(i as int) =~= orig);
        assert(buf_views(bufs@) =~= spec_read_bufs(orig, src));
        let n = cur - start;
        self.pos = if self.pos < len as u64 { self.pos + n as u64 } else { self.pos };
        n
    }

    /// Writes the buffers in order at the position, growing the contents as needed;
    /// returns the number of bytes written.
    pub fn write_vectored(&mut self, bufs: &Vec<Vec<u8>>) -> (n: usize)
        requires
            old(self).pos + concat_bufs(buf_views(bufs@)).len() <= usize::MAX,
        ensures
            n == concat_bufs(buf_views(bufs@)).len(),
            final(self).data@ == spec_write(
                old(self).data@,
                old(self).pos as int,
                concat_bufs(buf_views(bufs@)),
            ),
            final(self).pos == old(self).pos + n,
    {
        let ghost d0 = self.data@;
        let ghost bv = buf_views(bufs@);
        let pos: usize = self.pos as usize;
        assert(spec_write(d0, pos as int, seq![]).take(d0.len() as int) =~= d0);
        while self.data.len() < pos
            invariant
                d0.len() <= self.data@.len() <= (if pos > d0.len() { pos as int } else { d0.len() as int }),
                self.data@ =~= spec_write(d0, pos as int, seq![]).take(self.data@.len() as int),
            decreases pos - self.data@.len(),
        {
            self.data.push(0u8);
        }
        assert(self.data@ =~= spec_write(d0, pos as int, seq![]));
        let ghost mut w: Seq<u8> = seq![];
        let mut p: usize = pos;
        let mut i: usize = 0;
        while i < bufs.len()
            invariant
                0 <= i <= bufs@.len(),
                bv == buf_views(bufs@),
                pos + concat_bufs(bv).len() <= usize::MAX,
                w == concat_bufs(bv.take(i as int)),
                p == pos + w.len(),
                self.data@ == spec_write(d0, pos as int, w),
            decreases bufs@.len() - i,
        {
            proof {
                lemma_concat_take_len(bv, i + 1);
                assert(bv.take(i + 1).drop_last() =~= bv.take(i as int));
                assert(bv[i as int] == bufs@[i as int]@);
            }
            let blen = bufs[i].len();
            let mut j: usize = 0;
            while j < blen
                invariant
                    0 <= i < bufs@.len(),
                    bv == buf_views(bufs@),
                    blen == bv[i as int].len(),
                    0 <= j <= blen,
                    pos + concat_bufs(bv.take(i as int)).len() + blen <= usize::MAX,
                    w == concat_bufs(bv.take(i as int)) + bv[i as int].take(j as int),
                    p == pos + w.len(),
                    self.data@ == spec_write(d0, pos as int, w),
                decreases blen - j,
            {
                let b = bufs[i][j];
                let ghost w2 = w.push(b);
                if p < self.data.len() {
                    self.data[p] = b;
                } else {
                    self.data.push(b);
                }
                assert(self.data@ =~= spec_write(d0, pos as int, w2));
                proof {
                    w = w2;
                }
                p = p + 1;
                j = j + 1;
                assert(w =~= concat_bufs(bv.take(i as int)) + bv[i as int].take(j as int));
            }
            assert(bv[i as int].take(j as int) =~= bv[i as int]);
            i = i + 1;
        }
        assert(bv.take(i as int) =~= bv);
        let n = p - pos;
        self.pos = p as u64;
        n
    }
}

/// The contents of an open file, as far as they have been fetched.
pub enum FileCache {
    /// Not fetched yet; the position to take once fetched.
    Absent(SeekFrom),
    /// Fetched, with a position.
    Present(Cursor),
}

/// What an open file refers to.
pub enum FileKind {
    Stdin,
    Stdout,
    Stderr,
    Log,
    Temporary,
    Regular { key: Vec<u8> },
    Balance { addr: Address },
    Bytecode { addr: Address },
    Directory { path: String },
}

/// An open file.
pub struct File {
    pub kind: FileKind,
    pub flags: FdFlags,
    /// File metadata cache.
    pub metadata: Option<FileStat>,
    /// File contents cache.
    pub buf: FileCache,
    /// Whether the file has data that needs to be written back.
    pub dirty: bool,
}

/// The model of a `FileKind`.
pub enum KindV {
    Stdin,
    Stdout,
    Stderr,
    Log,
    Temporary,
    Regular(Seq<u8>),
    Balance(Address),
    Bytecode(Address),
    Directory(Seq<char>),
}

/// The model of a `FileCache`: an offset to take, or the contents and a position.
pub enum CacheV {
    Absent(SeekFrom),
    Present(Seq<u8>, u64),
}

/// The model of a `File`.
pub struct FileV {
    pub kind: KindV,
    pub flags: FdFlags,
    pub metadata: Option<FileStat>,
    pub cache: CacheV,
    pub dirty: bool,
}

impl View for FileKind {
    type V = KindV;

    open spec fn view(&self) -> KindV {
        match self {
            FileKind::Stdin => KindV::Stdin,
            FileKind::Stdout => KindV::Stdout,
            FileKind::Stderr => KindV::Stderr,
            FileKind::Log => KindV::Log,
            FileKind::Temporary => KindV::Temporary,
            FileKind::Regular { key } => KindV::Regular(key@),
            FileKind::Balance { addr } => KindV::Balance(*addr),
            FileKind::Bytecode { addr } => KindV::Bytecode(*addr),
            FileKind::Directory { path } => KindV::Directory(path@),
        }
    }
}

impl View for FileCache {
    type V = CacheV;

    open spec fn view(&self) -> CacheV {
        match self {
            FileCache::Absent(s) => CacheV::Absent(*s),
            FileCache::Present(c) => CacheV::Present(c.data@, c.pos),
        }
    }
}

impl View for File {
    type V = FileV;

    open spec fn view(&self) -> FileV {
        FileV {
            kind: self.kind@,
            flags: self.flags,
            metadata: self.metadata,
            cache: self.buf@,
            dirty: self.dirty,
        }
    }
}

impl KindV {
    pub open spec fn is_log(self) -> bool {
        self is Log
    }

    /// Files that the blockchain provides rather than the service's storage.
    pub open spec fn is_blockchain_intrinsic(self) -> bool {
        self is Log || self is Balance || self is Bytecode
    }
}

impl FileKind {
    pub fn is_log(&self) -> (r: bool)
        ensures
            r == self@.is_log(),
    {
        match self {
            FileKind::Log => true,
            _ => false,
        }
    }

    pub fn is_blockchain_intrinsic(&self) -> (r: bool)
        ensures
            r == self@.is_blockchain_intrinsic(),
    {
        match self {
            FileKind::Log | FileKind::Balance { .. } | FileKind::Bytecode { .. } => true,
            _ => false,
        }
    }
}

/// The path of the chain directory of the named blockchain: `/opt/<name>`,
/// or the name itself when it is an absolute path.
pub open spec fn chain_dir_path(blockchain_name: Seq<char>) -> Seq<char> {
    if blockchain_name.len() > 0 && blockchain_name[0] == '/' {
        blockchain_name
    } else {
        seq!['/', 'o', 'p', 't', '/'] + blockchain_name
    }
}

pub open spec fn std_flags() -> FdFlags {
    FdFlags { append: true, dsync: false, nonblock: false, rsync: false, sync: true }
}

pub open spec fn dir_flags() -> FdFlags {
    FdFlags { append: false, dsync: false, nonblock: false, rsync: false, sync: true }
}

/// A file that nothing has been fetched for yet, positioned at its start.
pub open spec fn fresh_file(kind: KindV, flags: FdFlags) -> FileV {
    FileV {
        kind,
        flags,
        metadata: None,
        cache: CacheV::Absent(SeekFrom::Start(0)),
        dirty: false,
    }
}

/// The descriptors that a new file system starts with: stdin, stdout, stderr,
/// the chain directory and the home directory `.`.
pub open spec fn spec_defaults(blockchain_name: Seq<char>) -> Seq<Option<FileV>> {
    seq![
        Some(fresh_file(KindV::Stdin, std_flags())),
        Some(fresh_file(KindV::Stdout, std_flags())),
        Some(fresh_file(KindV::Stderr, std_flags())),
        Some(fresh_file(KindV::Directory(chain_dir_path(blockchain_name)), dir_flags())),
        Some(fresh_file(KindV::Directory(seq!['.']), dir_flags())),
    ]
}

pub open spec fn file_views(files: Seq<Option<File>>) -> Seq<Option<FileV>> {
    files.map_values(|f: Option<File>| match f {
        Some(f) => Some(f@),
        None => None,
    })
}

impl File {
    fn fresh(kind: FileKind, flags: FdFlags) -> (f: File)
        ensures
            f@ == fresh_file(kind@, flags),
    {
        File { kind, flags, metadata: None, buf: FileCache::Absent(SeekFrom::Start(0)), dirty: false }
    }

    /// The descriptors that a new file system starts with.
    pub fn defaults(blockchain_name: &str) -> (files: Vec<Option<File>>)
        ensures
            file_views(files@) == spec_defaults(blockchain_name@),
    {
        let name = crate::path::str_chars(blockchain_name);
        let mut chain_dir: Vec<char> = Vec::new();
        if name.len() == 0 || name[0] != '/' {
            chain_dir.push('/');
            chain_dir.push('o');
            chain_dir.push('p');
            chain_dir.push('t');
            chain_dir.push('/');
        }
        let mut i: usize = 0;
        let ghost prefix = chain_dir@;
        while i < name.len()
            invariant
                0 <= i <= name@.len(),
                chain_dir@ == prefix + name@.take(i as int),
            decreases name@.len() - i,
        {
            chain_dir.push(name[i]);
            i = i + 1;
            assert(chain_dir@ =~= prefix + name@.take(i as int));
        }
        assert(name@.take(i as int) =~= name@);
        assert(chain_dir@ =~= chain_dir_path(blockchain_name@));
        let std_flags = FdFlags { append: true, dsync: false, nonblock: false, rsync: false, sync: true };
        let dir_flags = FdFlags { append: false, dsync: false, nonblock: false, rsync: false, sync: true };
        let mut files: Vec<Option<File>> = Vec::new();
        files.push(Some(File::fresh(FileKind::Stdin, std_flags)));
        files.push(Some(File::fresh(FileKind::Stdout, std_flags)));
        files.push(Some(File::fresh(FileKind::Stderr, std_flags)));
        let chain_path = crate::path::string_from_chars(chain_dir.as_slice());
        files.push(Some(File::fresh(FileKind::Directory { path: chain_path }, dir_flags)));
        let mut dot: Vec<char> = Vec::new();
        dot.push('.');
        assert(dot@ =~= seq!['.']);
        let home_path = crate::path::string_from_chars(dot.as_slice());
        files.push(Some(File::fresh(FileKind::Directory { path: home_path }, dir_flags)));
        let ghost fv = file_views(files@);
        assert(fv.len() == 5);
        assert(fv[0] == spec_defaults(blockchain_name@)[0]);
        assert(fv[3] == spec_defaults(blockchain_name@)[3]);
        assert(fv[4] == spec_defaults(blockchain_name@)[4]);
        assert(fv =~= spec_defaults(blockchain_name@));
        files
    }
}

} // verus!
