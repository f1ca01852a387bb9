//! What holds of the file system across its operations.
use vstd::prelude::*;
use crate::address::Address;
use crate::bcfs::{
    applied, opened_file, read_only, refresh_pos, refreshed_file, shares_key, spec_canonicalize, spec_close, spec_fd_seek, spec_flush, spec_open,
    spec_open_target, spec_populate, spec_read, spec_tell, spec_write_fd, BcfsV, FlushAction,
};
use crate::blockchain::PendingTransaction;
use crate::file::{
    KindV, concat_bufs, lemma_read_bufs_concat, remaining, spec_read_bufs, spec_read_count,
    spec_write, FileV,
};
use crate::wasi::{ErrNo, FdFlags, FileType, OpenFlags, Whence};

verus! {

/// A descriptor that is not open is refused by every operation with `BadF`.
pub proof fn law_closed_descriptor_is_bad<P: PendingTransaction<Address = Address>>(
    ptx: P,
    fs: BcfsV,
    fd: u32,
    bufs: Seq<Seq<u8>>,
    offset: Option<u64>,
    delta: i64,
    whence: Whence,
)
    requires
        fs.file_at(fd) is None,
    ensures
        spec_read(ptx, fs, fd, bufs, offset).0 == Err::<usize, ErrNo>(ErrNo::BadF),
        spec_write_fd(ptx, fs, fd, bufs, offset).0 == Err::<usize, ErrNo>(ErrNo::BadF),
        spec_fd_seek(ptx, fs, fd, delta, whence).0 == Err::<u64, ErrNo>(ErrNo::BadF),
        spec_tell(ptx, fs, fd).0 == Err::<u64, ErrNo>(ErrNo::BadF),
        spec_flush(fs, fd) is Err,
        spec_close(fs, fd) is Err,
{
}

/// Closing a descriptor closes it: a second close of it fails with `BadF`.
pub proof fn law_close_closes(fs: BcfsV, fd: u32)
    requires
        spec_close(fs, fd) is Ok,
    ensures
        spec_close(fs, fd)->Ok_0.0.file_at(fd) is None,
        spec_close(spec_close(fs, fd)->Ok_0.0, fd) == Err::<(BcfsV, FlushAction), ErrNo>(
            ErrNo::BadF,
        ),
{
}

/// After a successful seek, `tell` gives the position that the seek returned, and
/// changes nothing.
pub proof fn law_seek_then_tell<P: PendingTransaction<Address = Address>>(
    ptx: P,
    fs: BcfsV,
    fd: u32,
    offset: i64,
    whence: Whence,
)
    requires
        spec_fd_seek(ptx, fs, fd, offset, whence).0 is Ok,
    ensures
        spec_tell(ptx, spec_fd_seek(ptx, fs, fd, offset, whence).1, fd) == spec_fd_seek(
            ptx,
            fs,
            fd,
            offset,
            whence,
        ),
{
    let after = spec_fd_seek(ptx, fs, fd, offset, whence).1;
    let g = after.files[fd as int]->0;
    assert(after.with_file(fd, g).files =~= after.files);
}

/// What a positioned write puts at an offset, a positioned read at that offset gives
/// back, into buffers of the same total length.
pub proof fn law_write_then_read<P: PendingTransaction<Address = Address>>(
    ptx: P,
    fs: BcfsV,
    fd: u32,
    written: Seq<Seq<u8>>,
    read: Seq<Seq<u8>>,
    offset: u64,
)
    requires
        spec_write_fd(ptx, fs, fd, written, Some(offset)).0 is Ok,
        !(fs.file_at(fd)->0.kind is Stdout || fs.file_at(fd)->0.kind is Stderr || fs.file_at(
            fd,
        )->0.kind is Log),
        concat_bufs(read).len() == concat_bufs(written).len(),
    ensures
        spec_read(ptx, spec_write_fd(ptx, fs, fd, written, Some(offset)).1, fd, read, Some(offset)).0
            == spec_write_fd(ptx, fs, fd, written, Some(offset)).0,
        concat_bufs(
            spec_read(
                ptx,
                spec_write_fd(ptx, fs, fd, written, Some(offset)).1,
                fd,
                read,
                Some(offset),
            ).2,
        ) == concat_bufs(written),
{
    let src = concat_bufs(written);
    let after = spec_write_fd(ptx, fs, fd, written, Some(offset)).1;
    let g = after.files[fd as int]->0;
    let d = g.cache->Present_0;
    assert(d == spec_write(
        spec_populate(ptx, fs.file_at(fd)->0)->Ok_0.1.cache->Present_0,
        offset as int,
        src,
    ));
    let back = remaining(d, offset);
    assert(back.len() >= src.len() && forall|j: int| 0 <= j < src.len() ==> back[j] == src[j]) by {
        if src.len() > 0 {
            assert forall|j: int| 0 <= j < src.len() implies back[j] == src[j] by {
                assert(d[offset + j] == src[j]);
            }
        }
    }
    lemma_read_bufs_concat(read, back);
    let out = spec_read(ptx, after, fd, read, Some(offset)).2;
    assert(out == crate::file::spec_read_bufs(read, back));
    assert(concat_bufs(out) =~= src);
}

/// A positioned write leaves the position where it was.
pub proof fn law_pwrite_keeps_position<P: PendingTransaction<Address = Address>>(
    ptx: P,
    fs: BcfsV,
    fd: u32,
    bufs: Seq<Seq<u8>>,
    offset: u64,
)
    requires
        fs.wf(),
        spec_write_fd(ptx, fs, fd, bufs, Some(offset)).0 is Ok,
    ensures
        spec_tell(ptx, spec_write_fd(ptx, fs, fd, bufs, Some(offset)).1, fd).0 == spec_tell(
            ptx,
            fs,
            fd,
        ).0,
{
    let f = fs.files[fd as int]->0;
    assert(fs.files[fd as int] is Some);
}

/// Flushing a changed file of the service's storage stores its contents under its key,
/// leaves the outputs alone, marks it clean, and every other descriptor open on the
/// same key then holds the new contents.
pub proof fn law_flush_stores<P: PendingTransaction>(fs: BcfsV, fd: u32, before: P, after: P)
    requires
        fs.file_at(fd) matches Some(f) && f.dirty && f.kind is Regular && f.cache is Present,
        spec_flush(fs, fd) matches Ok((_, action)) && applied(before, after, action),
    ensures
        after.storage() == before.storage().insert(
            fs.file_at(fd)->0.kind->Regular_0,
            fs.file_at(fd)->0.cache->Present_0,
        ),
        after.outputs() == before.outputs(),
        spec_flush(fs, fd)->Ok_0.0.file_at(fd) == Some(FileV { dirty: false, ..fs.file_at(fd)->0 }),
        forall|i: int|
            #![trigger spec_flush(fs, fd)->Ok_0.0.files[i]]
            shares_key(fs, fd, fs.file_at(fd)->0.kind->Regular_0, i) ==> spec_flush(fs, fd)->Ok_0.0.files[i]
                == Some(refreshed_file(fs.files[i]->0, fs.file_at(fd)->0.cache->Present_0)),
{
}

/// Opening a file of the service's storage (without truncating it) and reading it from
/// the start gives the stored contents: byte `j` of the buffers is byte `j` of the
/// contents where there is one, and the count is the lesser of the two lengths.
/// (Stored values are taken to be shorter than `u64::MAX` bytes, as any value a
/// machine holds is.)
pub proof fn law_open_reads_stored<P: PendingTransaction<Address = Address>>(
    ptx: P,
    opened: P,
    fs: BcfsV,
    curdir: u32,
    path: Seq<char>,
    oflags: OpenFlags,
    fdflags: FdFlags,
    bufs: Seq<Seq<u8>>,
)
    requires
        spec_open(fs, ptx.storage(), curdir, path, oflags, fdflags).0 is Ok,
        spec_open(fs, ptx.storage(), curdir, path, oflags, fdflags).1.files[fs.files.len() as int]->0.kind is Regular,
        !oflags.trunc,
        forall|k: Seq<u8>| #[trigger] ptx.storage().contains_key(k) ==> ptx.storage()[k].len() <= u64::MAX,
        opened.storage() == spec_open(fs, ptx.storage(), curdir, path, oflags, fdflags).2,
    ensures
        ({
            let (r, fs2, storage) = spec_open(fs, ptx.storage(), curdir, path, oflags, fdflags);
            let fd = r->Ok_0;
            let key = fs2.files[fd as int]->0.kind->Regular_0;
            let contents = storage[key];
            &&& fd == fs.files.len()
            &&& storage.contains_key(key)
            &&& spec_read(opened, fs2, fd, bufs, Some(0)).0 == Ok::<usize, ErrNo>(
                spec_read_count(bufs, contents) as usize,
            )
            &&& concat_bufs(spec_read(opened, fs2, fd, bufs, Some(0)).2) == Seq::new(
                concat_bufs(bufs).len(),
                |j: int|
                    if j < contents.len() {
                        contents[j]
                    } else {
                        concat_bufs(bufs)[j]
                    },
            )
        }),
{
    let (r, fs2, storage) = spec_open(fs, ptx.storage(), curdir, path, oflags, fdflags);
    let fd = r->Ok_0;
    let key = fs2.files[fd as int]->0.kind->Regular_0;
    let contents = storage[key];
    let (addr, canon) = spec_canonicalize(fs.home, curdir, path)->Ok_0;
    let (kind, existed, stored) = spec_open_target(
        fs.home,
        ptx.storage(),
        addr,
        canon,
        oflags,
    )->Ok_0;
    assert(storage == stored);
    assert(fs2.files[fd as int] == Some(opened_file(kind, existed, oflags, fdflags)));
    let g = fs2.files[fd as int]->0;
    assert(kind == KindV::Regular(key));
    assert(storage.contains_key(key));
    let cache = spec_populate(opened, g)->Ok_0.1.cache;
    if existed {
        assert(g.cache is Absent);
        assert(crate::bcfs::fetched_bytes(opened, g.kind) == Ok::<Seq<u8>, ErrNo>(contents));
        assert(cache->Present_0 == contents);
    } else {
        assert(contents == Seq::<u8>::empty());
        assert(cache->Present_0 == contents);
    }
    assert(remaining(cache->Present_0, 0) =~= contents);
    lemma_read_bufs_concat(bufs, contents);
}

/// Flushing a changed file of the service's storage succeeds and stores its contents;
/// the file is then clean, so that flushing it again hands nothing to the blockchain;
/// and another descriptor open on the same key then reads the flushed contents from
/// its own position (the position it had, where its contents were fetched).
pub proof fn law_flush_then_alias_reads<P: PendingTransaction<Address = Address>>(
    ptx: P,
    fs: BcfsV,
    a: u32,
    b: u32,
    bufs: Seq<Seq<u8>>,
)
    requires
        fs.file_at(a) matches Some(f) && f.dirty && f.kind is Regular && f.cache is Present,
        shares_key(fs, a, fs.file_at(a)->0.kind->Regular_0, b as int),
    ensures
        ({
            let f = fs.file_at(a)->0;
            let key = f.kind->Regular_0;
            let c = f.cache->Present_0;
            let fs2 = spec_flush(fs, a)->Ok_0.0;
            let src = remaining(c, refresh_pos(fs.files[b as int]->0.cache, c.len()));
            &&& spec_flush(fs, a) is Ok
            &&& spec_flush(fs, a)->Ok_0.1 == FlushAction::Store(key, c)
            &&& spec_flush(fs2, a) == Ok::<(BcfsV, FlushAction), ErrNo>((fs2, FlushAction::Nothing))
            &&& spec_read(ptx, fs2, b, bufs, None).0 == Ok::<usize, ErrNo>(spec_read_count(bufs, src) as usize)
            &&& spec_read(ptx, fs2, b, bufs, None).2 == spec_read_bufs(bufs, src)
        }),
{
    let f = fs.file_at(a)->0;
    let key = f.kind->Regular_0;
    let c = f.cache->Present_0;
    let fs2 = spec_flush(fs, a)->Ok_0.0;
    let g = fs.files[b as int]->0;
    assert(fs2.files.len() == fs.files.len());
    assert(fs2.files[b as int] == Some(refreshed_file(g, c)));
    assert(fs2.file_at(b) == Some(refreshed_file(g, c)));
    assert(fs2.file_at(a) == Some(FileV { dirty: false, ..f }));
}

/// A positioned write to an open file that can be written, and whose contents can be
/// fetched, succeeds with the number of bytes given and leaves the position where it
/// was; a positioned read at the same offset, into buffers of the same total length,
/// then gives those bytes back.
pub proof fn law_pwrite_reads_back<P: PendingTransaction<Address = Address>>(
    ptx: P,
    fs: BcfsV,
    fd: u32,
    written: Seq<Seq<u8>>,
    read: Seq<Seq<u8>>,
    offset: u64,
)
    requires
        fs.wf(),
        fs.file_at(fd) matches Some(f) && !read_only(f.kind) && !(f.kind is Stdout || f.kind is Stderr
            || f.kind is Log) && spec_populate(ptx, f) is Ok,
        concat_bufs(read).len() == concat_bufs(written).len(),
    ensures
        ({
            let (w, fs2) = spec_write_fd(ptx, fs, fd, written, Some(offset));
            &&& w == Ok::<usize, ErrNo>(concat_bufs(written).len() as usize)
            &&& spec_tell(ptx, fs2, fd).0 == spec_tell(ptx, fs, fd).0
            &&& spec_read(ptx, fs2, fd, read, Some(offset)).0 == w
            &&& concat_bufs(spec_read(ptx, fs2, fd, read, Some(offset)).2) == concat_bufs(written)
        }),
{
    let f = fs.file_at(fd)->0;
    let g = spec_populate(ptx, f)->Ok_0.1;
    assert(g.cache is Present);
    law_write_then_read(ptx, fs, fd, written, read, offset);
    law_pwrite_keeps_position(ptx, fs, fd, written, offset);
}

/// The metadata that fetching a file yields, where the file had none, gives as its
/// size the number of bytes the file then holds, and calls it a regular file.
pub proof fn law_populate_reports_contents_size<P: PendingTransaction<Address = Address>>(
    ptx: P,
    f: FileV,
)
    requires
        f.metadata is None,
        spec_populate(ptx, f) is Ok,
        spec_populate(ptx, f)->Ok_0.1.cache->Present_0.len() <= u64::MAX,
    ensures
        ({
            let (meta, g) = spec_populate(ptx, f)->Ok_0;
            &&& g.cache is Present
            &&& meta.file_size == g.cache->Present_0.len()
            &&& meta.file_type == FileType::RegularFile
            &&& g.metadata == Some(meta)
        }),
{
}

/// Opening a file of the service's storage without truncating it and asking for its
/// attributes reports, as its size, the length of what the storage holds under its key.
pub proof fn law_open_then_filestat_size<P: PendingTransaction<Address = Address>>(
    ptx: P,
    opened: P,
    fs: BcfsV,
    curdir: u32,
    path: Seq<char>,
    oflags: OpenFlags,
    fdflags: FdFlags,
)
    requires
        spec_open(fs, ptx.storage(), curdir, path, oflags, fdflags).0 is Ok,
        spec_open(fs, ptx.storage(), curdir, path, oflags, fdflags).1.files[fs.files.len() as int]->0.kind is Regular,
        !oflags.trunc,
        forall|k: Seq<u8>| #[trigger] ptx.storage().contains_key(k) ==> ptx.storage()[k].len() <= u64::MAX,
        opened.storage() == spec_open(fs, ptx.storage(), curdir, path, oflags, fdflags).2,
    ensures
        ({
            let (r, fs2, storage) = spec_open(fs, ptx.storage(), curdir, path, oflags, fdflags);
            let fd = r->Ok_0;
            let key = fs2.files[fd as int]->0.kind->Regular_0;
            &&& storage.contains_key(key)
            &&& spec_populate(opened, fs2.file_at(fd)->0) is Ok
            &&& spec_populate(opened, fs2.file_at(fd)->0)->Ok_0.0.file_size == storage[key].len()
            &&& spec_populate(opened, fs2.file_at(fd)->0)->Ok_0.0.file_type == FileType::RegularFile
        }),
{
    let (r, fs2, storage) = spec_open(fs, ptx.storage(), curdir, path, oflags, fdflags);
    let fd = r->Ok_0;
    let key = fs2.files[fd as int]->0.kind->Regular_0;
    let contents = storage[key];
    let (addr, canon) = spec_canonicalize(fs.home, curdir, path)->Ok_0;
    let (kind, existed, stored) = spec_open_target(
        fs.home,
        ptx.storage(),
        addr,
        canon,
        oflags,
    )->Ok_0;
    assert(storage == stored);
    assert(fd == fs.files.len());
    assert(fs2.files[fd as int] == Some(opened_file(kind, existed, oflags, fdflags)));
    assert(fs2.file_at(fd) == fs2.files[fd as int]);
    let g = fs2.files[fd as int]->0;
    assert(kind == KindV::Regular(key));
    assert(storage.contains_key(key));
    if existed {
        assert(g.cache is Absent);
        assert(g.metadata is None);
        assert(crate::bcfs::fetched_bytes(opened, g.kind) == Ok::<Seq<u8>, ErrNo>(contents));
        assert(contents.len() <= u64::MAX);
    } else {
        assert(contents == Seq::<u8>::empty());
    }
}

} // verus!
