//! The blockchain file system: a WASI-style file system whose files are the
//! service's storage, its input and output, the chain's log, and other accounts'
//! balances and bytecode.
use vstd::prelude::*;
use crate::address::{Address, address_with_bytes, spec_parse_address};
use crate::blockchain::{AccountMeta, KVStore, KVStoreMut, PendingTransaction, TxOutput};
use crate::file::{
    buf_views, concat_bufs, remaining, spec_read_bufs, spec_read_count, spec_write,
    CacheV, Cursor, File, FileCache, FileKind, FileV, KindV, SeekFrom, file_views, spec_defaults,
    spec_seek, CHAIN_DIR_FILENO, HOME_DIR_FILENO,
};
use crate::log::{parse_log, spec_parse_log, topic_views};
use crate::path::{
    components, fold_components, key_for_path, spec_components, spec_fold, spec_key_for_path,
    views,
};
use crate::wasi::{
    ErrNo, Fd, FdFlags, FdStat, FileDelta, FileSize, FileStat, FileType, OpenFlags, Whence,
    filestat_of_size, spec_filestat_of_size, ALL_RIGHTS,
};

verus! {

/// The file system: its open files by descriptor, and the address of the
/// service whose home directory it serves.
pub struct BCFS {
    files: Vec<Option<File>>,
    home_addr: Address,
}

/// The model of a `BCFS`.
pub struct BcfsV {
    pub files: Seq<Option<FileV>>,
    pub home: Address,
}

impl View for BCFS {
    type V = BcfsV;

    closed spec fn view(&self) -> BcfsV {
        BcfsV { files: file_views(self.files@), home: self.home_addr }
    }
}

impl BcfsV {
    /// The open file at descriptor `fd`, if any.
    pub open spec fn file_at(self, fd: u32) -> Option<FileV> {
        if fd < self.files.len() {
            self.files[fd as int]
        } else {
            None
        }
    }

    /// The file system with the file at `fd` replaced.
    pub open spec fn with_file(self, fd: u32, f: FileV) -> BcfsV {
        BcfsV { files: self.files.update(fd as int, Some(f)), ..self }
    }

    /// What every operation keeps: descriptors fit in 32 bits, and no unfetched
    /// file waits on an offset relative to a position it does not have.
    pub open spec fn wf(self) -> bool {
        &&& HOME_DIR_FILENO < self.files.len() <= u32::MAX
        &&& forall|i: int|
            0 <= i < self.files.len() && (#[trigger] self.files[i]) is Some ==> !(
            self.files[i]->0.cache matches CacheV::Absent(SeekFrom::Current(_)))
    }
}

/// The little-endian bytes of the low `n` bytes of `x`.
pub open spec fn le_bytes(x: nat, n: nat) -> Seq<u8>
    decreases n,
{
    if n == 0 {
        seq![]
    } else {
        seq![(x % 256) as u8] + le_bytes(x / 256, (n - 1) as nat)
    }
}

/// The eight little-endian bytes of a balance.
pub fn u64_to_le_bytes(x: u64) -> (v: Vec<u8>)
    ensures
        v@ == le_bytes(x as nat, 8),
{
    let mut v: Vec<u8> = Vec::new();
    let mut rest: u64 = x;
    let mut i: usize = 0;
    while i < 8
        invariant
            0 <= i <= 8,
            v@ + le_bytes(rest as nat, (8 - i) as nat) == le_bytes(x as nat, 8),
        decreases 8 - i,
    {
        let ghost before = v@;
        v.push((rest % 256) as u8);
        assert(le_bytes(rest as nat, (8 - i) as nat) =~= seq![(rest % 256) as u8] + le_bytes(
            (rest / 256) as nat,
            (8 - i - 1) as nat,
        ));
        assert(v@ + le_bytes((rest / 256) as nat, (8 - i - 1) as nat) =~= before + le_bytes(
            rest as nat,
            (8 - i) as nat,
        ));
        rest = rest / 256;
        i = i + 1;
    }
    assert(le_bytes(rest as nat, 0) =~= seq![]);
    assert(v@ =~= v@ + le_bytes(rest as nat, 0));
    v
}

/// The storage, input, code and balances that a transaction sees, all but its outputs.
pub open spec fn same_chain<P: PendingTransaction>(a: P, b: P) -> bool {
    &&& b.input_data() == a.input_data()
    &&& forall|addr: P::Address| #[trigger] b.code(addr) == a.code(addr)
    &&& forall|addr: P::Address| #[trigger] b.balance_of(addr) == a.balance_of(addr)
}

/// A transaction that an operation only read.
pub open spec fn untouched<P: PendingTransaction>(a: P, b: P) -> bool {
    &&& same_chain(a, b)
    &&& b.storage() == a.storage()
    &&& b.outputs() == a.outputs()
}

/// The contents that the blockchain holds for a file of the given kind.
pub open spec fn fetched_bytes<P: PendingTransaction<Address = Address>>(ptx: P, kind: KindV) -> Result<Seq<u8>, ErrNo> {
    match kind {
        KindV::Stdin => Ok(ptx.input_data()),
        KindV::Bytecode(a) => match ptx.code(a) {
            Some(c) => Ok(c),
            None => Err(ErrNo::NoEnt),
        },
        KindV::Balance(a) => match ptx.balance_of(a) {
            Some(b) => Ok(le_bytes(b as nat, 8)),
            None => Err(ErrNo::NoEnt),
        },
        KindV::Regular(key) => if ptx.storage().contains_key(key) {
            Ok(ptx.storage()[key])
        } else {
            Err(ErrNo::NoEnt)
        },
        KindV::Stdout | KindV::Stderr | KindV::Log => Ok(seq![]),
        KindV::Directory(_) | KindV::Temporary => Err(ErrNo::Fault),
    }
}

/// Fetches a file's contents if they are absent, and its metadata if it has none:
/// the metadata, and the file afterwards.
pub open spec fn spec_populate<P: PendingTransaction<Address = Address>>(ptx: P, f: FileV) -> Result<(FileStat, FileV), ErrNo> {
    let fetched: Result<(nat, CacheV), ErrNo> = match f.cache {
        CacheV::Present(d, p) => Ok((d.len(), CacheV::Present(d, p))),
        CacheV::Absent(target) => match fetched_bytes(ptx, f.kind) {
            Err(e) => Err(e),
            Ok(bytes) => match spec_seek(bytes.len(), 0, target) {
                Some(p) => Ok((bytes.len(), CacheV::Present(bytes, p))),
                None => Err(ErrNo::Inval),
            },
        },
    };
    match fetched {
        Err(e) => Err(e),
        Ok((size, cache)) => {
            let meta = match f.metadata {
                Some(m) => m,
                None => spec_filestat_of_size(size as u64),
            };
            Ok((meta, FileV { cache, metadata: Some(meta), ..f }))
        },
    }
}

impl BCFS {
    pub closed spec fn wf(&self) -> bool {
        self@.wf()
    }

    /// Creates a file system for the service at `home_addr` on the named blockchain.
    pub fn new(home_addr: Address, blockchain_name: &str) -> (fs: BCFS)
        ensures
            fs.wf(),
            fs@.files == spec_defaults(blockchain_name@),
            fs@.home == home_addr,
    {
        let fs = BCFS { files: File::defaults(blockchain_name), home_addr };
        proof {
            assert(fs@.files.len() == 5);
        }
        fs
    }

    fn has_fd(&self, fd: Fd) -> (r: bool)
        ensures
            r == self@.file_at(fd) is Some,
    {
        let i = fd as usize;
        if i < self.files.len() {
            proof {
                assert(file_views(self.files@)[i as int] is Some == self.files@[i as int] is Some);
            }
            match &self.files[i] {
                Some(_) => true,
                None => false,
            }
        } else {
            false
        }
    }

    /// Takes the file at `fd` out of its slot.
    fn take_file(&mut self, fd: Fd) -> (r: Option<File>)
        ensures
            final(self).home_addr == old(self).home_addr,
            match old(self)@.file_at(fd) {
                Some(f) => r matches Some(g) && g@ == f && final(self).files@.len() == old(self).files@.len()
                    && final(self)@.files == old(self)@.files.update(fd as int, None),
                None => r is None && final(self)@ == old(self)@,
            },
    {
        let i = fd as usize;
        if i < self.files.len() {
            let ghost before = self.files@;
            let mut taken: Option<File> = None;
            std::mem::swap(&mut taken, &mut self.files[i]);
            proof {
                assert(file_views(self.files@) =~= file_views(before).update(i as int, None));
                if before[i as int] is None {
                    assert(file_views(self.files@) =~= file_views(before));
                    assert(self@ == old(self)@);
                } else {
                    assert(file_views(before)[i as int] == Some(taken->0@));
                }
            }
            taken
        } else {
            None
        }
    }

    /// Puts a file back into slot `fd`.
    fn put_file(&mut self, fd: Fd, f: File)
        requires
            (fd as int) < old(self).files@.len(),
        ensures
            final(self).home_addr == old(self).home_addr,
            final(self).files@.len() == old(self).files@.len(),
            final(self)@.files == old(self)@.files.update(fd as int, Some(f@)),
    {
        let ghost before = self.files@;
        let ghost fv = f@;
        self.files[fd as usize] = Some(f);
        proof {
            assert(file_views(self.files@) =~= file_views(before).update(fd as int, Some(fv)));
        }
    }
}

/// Fetches a file's contents if they are absent, and its metadata if it has none.
fn populate_file<P: PendingTransaction<Address = Address>>(ptx: &P, file: &mut File) -> (r: Result<FileStat, ErrNo>)
    ensures
        match spec_populate(*ptx, old(file)@) {
            Ok((m, f1)) => r == Ok::<FileStat, ErrNo>(m) && final(file)@ == f1,
            Err(e) => r == Err::<FileStat, ErrNo>(e) && final(file)@ == old(file)@,
        },
{
    let size: usize = match &file.buf {
        FileCache::Present(cursor) => cursor.data.len(),
        FileCache::Absent(target) => {
            let target = *target;
            let bytes: Vec<u8> = match &file.kind {
                FileKind::Stdin => slice_to_vec_u8(ptx.input()),
                FileKind::Bytecode { addr } => match ptx.code_at(addr) {
                    Some(code) => slice_to_vec_u8(code),
                    None => return Err(ErrNo::NoEnt),
                },
                FileKind::Balance { addr } => match ptx.account_meta_at(addr) {
                    Some(meta) => u64_to_le_bytes(meta.balance()),
                    None => return Err(ErrNo::NoEnt),
                },
                FileKind::Regular { key } => match ptx.state().get(key.as_slice()) {
                    Some(val) => val,
                    None => return Err(ErrNo::NoEnt),
                },
                FileKind::Stdout | FileKind::Stderr | FileKind::Log => Vec::new(),
                FileKind::Directory { .. } | FileKind::Temporary => return Err(ErrNo::Fault),
            };
            let len = bytes.len();
            let mut cursor = Cursor::new(bytes);
            match cursor.seek(target) {
                Ok(_) => {},
                Err(e) => return Err(e),
            }
            file.buf = FileCache::Present(cursor);
            len
        },
    };
    match file.metadata {
        Some(meta) => Ok(meta),
        None => {
            let meta = filestat_of_size(size as u64);
            file.metadata = Some(meta);
            Ok(meta)
        },
    }
}

fn chars_eq(a: &[char], b: &[char]) -> (r: bool)
    ensures
        r == (a@ == b@),
{
    if a.len() != b.len() {
        return false;
    }
    let mut i: usize = 0;
    while i < a.len()
        invariant
            a@.len() == b@.len(),
            0 <= i <= a@.len(),
            forall|k: int| 0 <= k < i ==> a@[k] == b@[k],
        decreases a@.len() - i,
    {
        if a[i] != b[i] {
            return false;
        }
        i = i + 1;
    }
    assert(a@ =~= b@);
    true
}

/// Whether a canonical path is the single component `word`.
fn is_single(canon: &Vec<Vec<char>>, word: &Vec<char>) -> (r: bool)
    ensures
        r == (views(canon@) == seq![word@]),
{
    if canon.len() != 1 {
        assert(views(canon@).len() != 1);
        return false;
    }
    let r = chars_eq(canon[0].as_slice(), word.as_slice());
    proof {
        assert(views(canon@)[0] == canon@[0]@);
        if r {
            assert(views(canon@) =~= seq![word@]);
        }
    }
    r
}

fn word(cs: &[char]) -> (v: Vec<char>)
    ensures
        v@ == cs@,
{
    slice_to_vec_char(cs)
}

fn slice_to_vec_char(s: &[char]) -> (v: Vec<char>)
    ensures
        v@ == s@,
{
    vstd::slice::slice_to_vec(s)
}

fn bytes_eq(a: &[u8], b: &[u8]) -> (r: bool)
    ensures
        r == (a@ == b@),
{
    if a.len() != b.len() {
        return false;
    }
    let mut i: usize = 0;
    while i < a.len()
        invariant
            a@.len() == b@.len(),
            0 <= i <= a@.len(),
            forall|k: int| 0 <= k < i ==> a@[k] == b@[k],
        decreases a@.len() - i,
    {
        if a[i] != b[i] {
            return false;
        }
        i = i + 1;
    }
    assert(a@ =~= b@);
    true
}

fn slice_to_vec_u8(s: &[u8]) -> (v: Vec<u8>)
    ensures
        v@ == s@,
{
    vstd::slice::slice_to_vec(s)
}

/// The canonical form of `path` relative to the directory at `curdir`: the account
/// whose directory it is in, if known, and its components.
/// Under the chain directory a leading component of 40 hexadecimal digits names an
/// account; under any other directory the account is the home account.
pub open spec fn spec_canonicalize(home: Address, curdir: u32, path: Seq<char>) -> Result<(Option<Address>, Seq<Seq<char>>), ErrNo> {
    if path.len() > 0 && path[0] == '/' {
        Err(ErrNo::NoEnt)
    } else {
        let comps = spec_components(path);
        let named_account = curdir == CHAIN_DIR_FILENO && comps.len() > 0 && spec_parse_address(
            comps[0],
        ) is Some;
        let addr = if curdir == CHAIN_DIR_FILENO {
            if named_account {
                Some(address_with_bytes(spec_parse_address(comps[0])->0))
            } else {
                None
            }
        } else {
            Some(home)
        };
        let rest = if named_account {
            comps.drop_first()
        } else {
            comps
        };
        match spec_fold(rest) {
            None => Err(ErrNo::NoEnt),
            Some((canon, named)) => if named {
                Ok((addr, canon))
            } else {
                Err(ErrNo::Inval)
            },
        }
    }
}

/// The offset that `offset` from `whence` stands for; a negative offset from the start is invalid.
pub open spec fn spec_seekfrom(offset: i64, whence: Whence) -> Result<SeekFrom, ErrNo> {
    match whence {
        Whence::Current => Ok(SeekFrom::Current(offset)),
        Whence::Start => if offset < 0 {
            Err(ErrNo::Inval)
        } else {
            Ok(SeekFrom::Start(offset as u64))
        },
        Whence::End => Ok(SeekFrom::End(offset)),
    }
}

fn seekfrom_from_offset_whence(offset: FileDelta, whence: Whence) -> (r: Result<SeekFrom, ErrNo>)
    ensures
        r == spec_seekfrom(offset, whence),
{
    match whence {
        Whence::Current => Ok(SeekFrom::Current(offset)),
        Whence::Start => if offset < 0 {
            Err(ErrNo::Inval)
        } else {
            Ok(SeekFrom::Start(offset as u64))
        },
        Whence::End => Ok(SeekFrom::End(offset)),
    }
}

/// `base` moved by `offset`, unless that is negative or past `u64::MAX`.
fn checked_offset(base: u64, offset: i64) -> (r: Result<u64, ErrNo>)
    ensures
        match crate::file::offset_from(base as int, offset as int) {
            Some(n) => r == Ok::<u64, ErrNo>(n),
            None => r == Err::<u64, ErrNo>(ErrNo::Inval),
        },
{
    let sum: i128 = base as i128 + offset as i128;
    if 0 <= sum && sum <= u64::MAX as i128 {
        Ok(sum as u64)
    } else {
        Err(ErrNo::Inval)
    }
}

/// Seeking in the file at `fd`: the new position, and the file system afterwards.
pub open spec fn spec_fd_seek<P: PendingTransaction<Address = Address>>(
    ptx: P,
    fs: BcfsV,
    fd: u32,
    offset: i64,
    whence: Whence,
) -> (Result<u64, ErrNo>, BcfsV) {
    match fs.file_at(fd) {
        None => (Err(ErrNo::BadF), fs),
        Some(f) => {
            let fetch = whence == Whence::End || f.cache matches CacheV::Absent(SeekFrom::End(_));
            let fetched: Result<FileV, ErrNo> = if fetch {
                match spec_populate(ptx, f) {
                    Ok((_, g)) => Ok(g),
                    Err(e) => Err(e),
                }
            } else {
                Ok(f)
            };
            match fetched {
                Err(e) => (Err(e), fs),
                Ok(g) => match g.cache {
                    CacheV::Present(d, p) => match spec_seekfrom(offset, whence) {
                        Err(e) => (Err(e), fs.with_file(fd, g)),
                        Ok(t) => match spec_seek(d.len(), p, t) {
                            Some(np) => (
                                Ok(np),
                                fs.with_file(fd, FileV { cache: CacheV::Present(d, np), ..g }),
                            ),
                            None => (Err(ErrNo::Inval), fs.with_file(fd, g)),
                        },
                    },
                    CacheV::Absent(at) => match (whence, at) {
                        (Whence::Start, _) => if offset < 0 {
                            (Err(ErrNo::Inval), fs)
                        } else {
                            (
                                Ok(offset as u64),
                                fs.with_file(
                                    fd,
                                    FileV {
                                        cache: CacheV::Absent(SeekFrom::Start(offset as u64)),
                                        ..g
                                    },
                                ),
                            )
                        },
                        (_, SeekFrom::Start(cur)) => match crate::file::offset_from(
                            cur as int,
                            offset as int,
                        ) {
                            Some(n) => (
                                Ok(n),
                                fs.with_file(
                                    fd,
                                    FileV { cache: CacheV::Absent(SeekFrom::Start(n)), ..g },
                                ),
                            ),
                            None => (Err(ErrNo::Inval), fs),
                        },
                        _ => (Err(ErrNo::Inval), fs),
                    },
                },
            }
        },
    }
}

/// The position of the file at `fd`, and the file system afterwards.
pub open spec fn spec_tell<P: PendingTransaction<Address = Address>>(ptx: P, fs: BcfsV, fd: u32) -> (Result<u64, ErrNo>, BcfsV) {
    match fs.file_at(fd) {
        None => (Err(ErrNo::BadF), fs),
        Some(f) => {
            let fetched: Result<FileV, ErrNo> = if f.cache matches CacheV::Absent(SeekFrom::End(_)) {
                match spec_populate(ptx, f) {
                    Ok((_, g)) => Ok(g),
                    Err(e) => Err(e),
                }
            } else {
                Ok(f)
            };
            match fetched {
                Err(e) => (Err(e), fs),
                Ok(g) => match g.cache {
                    CacheV::Present(_, p) => (Ok(p), fs.with_file(fd, g)),
                    CacheV::Absent(SeekFrom::Start(o)) => (Ok(o), fs),
                    _ => (Err(ErrNo::Inval), fs),
                },
            }
        },
    }
}

pub open spec fn word_log() -> Seq<char> {
    seq!['l', 'o', 'g']
}

pub open spec fn word_balance() -> Seq<char> {
    seq!['b', 'a', 'l', 'a', 'n', 'c', 'e']
}

pub open spec fn word_bytecode() -> Seq<char> {
    seq!['b', 'y', 't', 'e', 'c', 'o', 'd', 'e']
}

/// What a canonical path opens, whether it existed, and the storage afterwards:
/// `log` in the chain directory, `balance` and `bytecode` in any account's
/// directory, and any other path in the home account's directory (a storage key).
pub open spec fn spec_open_target(
    home: Address,
    storage: Map<Seq<u8>, Seq<u8>>,
    addr: Option<Address>,
    canon: Seq<Seq<char>>,
    oflags: OpenFlags,
) -> Result<(KindV, bool, Map<Seq<u8>, Seq<u8>>), ErrNo> {
    if addr is None && canon == seq![word_log()] {
        Ok((KindV::Log, true, storage))
    } else if addr is Some && canon == seq![word_balance()] {
        Ok((KindV::Balance(addr->0), true, storage))
    } else if addr is Some && canon == seq![word_bytecode()] {
        Ok((KindV::Bytecode(addr->0), true, storage))
    } else if addr == Some(home) {
        let key = spec_key_for_path(canon);
        let existed = storage.contains_key(key);
        if existed && oflags.excl {
            Err(ErrNo::Exist)
        } else if !existed && !oflags.create {
            Err(ErrNo::NoEnt)
        } else {
            Ok(
                (
                    KindV::Regular(key),
                    existed,
                    if existed {
                        storage
                    } else {
                        storage.insert(key, seq![])
                    },
                ),
            )
        }
    } else {
        Err(ErrNo::NoEnt)
    }
}

/// The file that opening creates.
pub open spec fn opened_file(kind: KindV, existed: bool, oflags: OpenFlags, fdflags: FdFlags) -> FileV {
    FileV {
        kind,
        flags: fdflags,
        metadata: if existed {
            None
        } else {
            Some(spec_filestat_of_size(0))
        },
        cache: if !existed || oflags.trunc {
            CacheV::Present(seq![], 0)
        } else if fdflags.append {
            CacheV::Absent(SeekFrom::End(0))
        } else {
            CacheV::Absent(SeekFrom::Start(0))
        },
        dirty: false,
    }
}

/// Opening `path` relative to the directory at `curdir`: the new descriptor, the
/// file system afterwards, and the storage afterwards (opening a regular file that
/// does not exist creates it, empty, at once).
pub open spec fn spec_open(
    fs: BcfsV,
    storage: Map<Seq<u8>, Seq<u8>>,
    curdir: u32,
    path: Seq<char>,
    oflags: OpenFlags,
    fdflags: FdFlags,
) -> (Result<u32, ErrNo>, BcfsV, Map<Seq<u8>, Seq<u8>>) {
    if oflags.directory {
        (Err(ErrNo::NotSup), fs, storage)
    } else if !(fs.file_at(curdir) matches Some(d) && d.kind is Directory) {
        (Err(ErrNo::BadF), fs, storage)
    } else {
        match spec_canonicalize(fs.home, curdir, path) {
            Err(e) => (Err(e), fs, storage),
            Ok((addr, canon)) => match spec_open_target(fs.home, storage, addr, canon, oflags) {
                Err(e) => (Err(e), fs, storage),
                Ok((kind, existed, storage2)) => if kind.is_blockchain_intrinsic() && (oflags.create
                    || oflags.excl) {
                    (Err(ErrNo::Exist), fs, storage2)
                } else if kind.is_blockchain_intrinsic() && (oflags.trunc || oflags.directory || (
                kind.is_log() && !fdflags.append)) {
                    (Err(ErrNo::Inval), fs, storage2)
                } else if fs.files.len() >= u32::MAX {
                    (Err(ErrNo::NFile), fs, storage2)
                } else {
                    (
                        Ok(fs.files.len() as u32),
                        spec_push(fs, opened_file(kind, existed, oflags, fdflags)),
                        storage2,
                    )
                },
            },
        }
    }
}

/// Removing the file at `path` relative to `curdir`: the number of bytes it held and
/// the storage afterwards. Only the home directory allows it, and never for
/// `balance` or `bytecode`.
pub open spec fn spec_unlink(
    home: Address,
    storage: Map<Seq<u8>, Seq<u8>>,
    curdir: u32,
    path: Seq<char>,
) -> (Result<u64, ErrNo>, Map<Seq<u8>, Seq<u8>>) {
    if curdir != HOME_DIR_FILENO {
        (Err(ErrNo::Access), storage)
    } else {
        match spec_canonicalize(home, curdir, path) {
            Err(e) => (Err(e), storage),
            Ok((addr, canon)) => if addr != Some(home) {
                (Err(ErrNo::Access), storage)
            } else if canon == seq![word_balance()] || canon == seq![word_bytecode()] {
                (Err(ErrNo::Access), storage)
            } else {
                let key = spec_key_for_path(canon);
                (
                    Ok(
                        if storage.contains_key(key) {
                            storage[key].len() as u64
                        } else {
                            0
                        },
                    ),
                    storage.remove(key),
                )
            },
        }
    }
}

/// Reading from the file at `fd` into buffers, at `offset` if given (leaving the
/// position where it was) or else at the position (and moving it past what was read):
/// the number of bytes read, the file system afterwards, and the buffers afterwards.
pub open spec fn spec_read<P: PendingTransaction<Address = Address>>(
    ptx: P,
    fs: BcfsV,
    fd: u32,
    bufs: Seq<Seq<u8>>,
    offset: Option<u64>,
) -> (Result<usize, ErrNo>, BcfsV, Seq<Seq<u8>>) {
    match fs.file_at(fd) {
        None => (Err(ErrNo::BadF), fs, bufs),
        Some(f) => if f.kind is Stdout || f.kind is Stderr || f.kind is Log {
            (Err(ErrNo::Inval), fs, bufs)
        } else {
            match spec_populate(ptx, f) {
                Err(e) => (Err(e), fs, bufs),
                Ok((_, g)) => match g.cache {
                    CacheV::Present(d, p) => {
                        let at = match offset {
                            Some(o) => o,
                            None => p,
                        };
                        let src = remaining(d, at);
                        let n = spec_read_count(bufs, src);
                        let new_pos = match offset {
                            Some(_) => p,
                            None => (p + n) as u64,
                        };
                        (
                            Ok(n as usize),
                            fs.with_file(fd, FileV { cache: CacheV::Present(d, new_pos), ..g }),
                            spec_read_bufs(bufs, src),
                        )
                    },
                    CacheV::Absent(_) => (Err(ErrNo::Inval), fs, bufs),
                },
            }
        },
    }
}

/// Files that cannot be written: the input, and accounts' bytecode and balances.
pub open spec fn read_only(kind: KindV) -> bool {
    kind is Stdin || kind is Bytecode || kind is Balance
}

/// Where a write to the file at `fd` would start, once its contents are fetched.
pub open spec fn write_start<P: PendingTransaction<Address = Address>>(
    ptx: P,
    fs: BcfsV,
    fd: u32,
    offset: Option<u64>,
) -> Option<u64> {
    match fs.file_at(fd) {
        Some(f) => if read_only(f.kind) {
            None
        } else {
            match spec_populate(ptx, f) {
                Ok((_, g)) => match g.cache {
                    CacheV::Present(_, p) => match offset {
                        Some(o) => Some(o),
                        None => Some(p),
                    },
                    _ => None,
                },
                Err(_) => None,
            }
        },
        None => None,
    }
}

/// Whether a write of `bufs` stays within the memory a file's contents can have.
pub open spec fn write_fits<P: PendingTransaction<Address = Address>>(
    ptx: P,
    fs: BcfsV,
    fd: u32,
    bufs: Seq<Seq<u8>>,
    offset: Option<u64>,
) -> bool {
    match write_start(ptx, fs, fd, offset) {
        Some(at) => at + concat_bufs(bufs).len() <= usize::MAX,
        None => true,
    }
}

/// Writing buffers to the file at `fd`, at `offset` if given (leaving the position
/// where it was) or else at the position (and moving it past what was written):
/// the number of bytes written and the file system afterwards.
/// A file that was written to is dirty until it is flushed.
pub open spec fn spec_write_fd<P: PendingTransaction<Address = Address>>(
    ptx: P,
    fs: BcfsV,
    fd: u32,
    bufs: Seq<Seq<u8>>,
    offset: Option<u64>,
) -> (Result<usize, ErrNo>, BcfsV) {
    match fs.file_at(fd) {
        None => (Err(ErrNo::BadF), fs),
        Some(f) => if read_only(f.kind) {
            (Err(ErrNo::Inval), fs)
        } else {
            match spec_populate(ptx, f) {
                Err(e) => (Err(e), fs),
                Ok((_, g)) => match g.cache {
                    CacheV::Present(d, p) => {
                        let at = match offset {
                            Some(o) => o,
                            None => p,
                        };
                        let src = concat_bufs(bufs);
                        let new_pos = match offset {
                            Some(_) => p,
                            None => (at + src.len()) as u64,
                        };
                        (
                            Ok(src.len() as usize),
                            fs.with_file(
                                fd,
                                FileV {
                                    cache: CacheV::Present(spec_write(d, at as int, src), new_pos),
                                    dirty: g.dirty || src.len() > 0,
                                    ..g
                                },
                            ),
                        )
                    },
                    CacheV::Absent(_) => (Err(ErrNo::Inval), fs),
                },
            }
        },
    }
}

/// What flushing a file hands to the blockchain.
pub enum FlushAction {
    Nothing,
    Return(Seq<u8>),
    Error(Seq<u8>),
    Emit(Seq<Seq<u8>>, Seq<u8>),
    Store(Seq<u8>, Seq<u8>),
}

/// The transaction `b` is `a` after the action.
pub open spec fn applied<P: PendingTransaction>(a: P, b: P, action: FlushAction) -> bool {
    match action {
        FlushAction::Nothing => untouched(a, b),
        FlushAction::Return(d) => same_chain(a, b) && b.storage() == a.storage() && b.outputs()
            == a.outputs().push(TxOutput::Return(d)),
        FlushAction::Error(d) => same_chain(a, b) && b.storage() == a.storage() && b.outputs()
            == a.outputs().push(TxOutput::Error(d)),
        FlushAction::Emit(t, d) => same_chain(a, b) && b.storage() == a.storage() && b.outputs()
            == a.outputs().push(TxOutput::Event(t, d)),
        FlushAction::Store(k, d) => same_chain(a, b) && b.outputs() == a.outputs() && b.storage()
            == a.storage().insert(k, d),
    }
}

/// The position that a file sharing freshly written contents keeps.
pub open spec fn refresh_pos(cache: CacheV, len: nat) -> u64 {
    match cache {
        CacheV::Absent(t) => match spec_seek(len, 0, t) {
            Some(p) => p,
            None => 0,
        },
        CacheV::Present(_, p) => p,
    }
}

/// Another open file of the same key after a flush: it sees the new contents at its own
/// position, and its metadata is to be fetched again.
pub open spec fn refreshed_file(g: FileV, buf: Seq<u8>) -> FileV {
    FileV {
        cache: CacheV::Present(buf, refresh_pos(g.cache, buf.len())),
        metadata: None,
        ..g
    }
}

/// Whether the file at index `i` is another descriptor open on storage key `key`.
pub open spec fn shares_key(fs: BcfsV, fd: u32, key: Seq<u8>, i: int) -> bool {
    &&& i != fd
    &&& HOME_DIR_FILENO < i < fs.files.len()
    &&& fs.files[i] is Some
    &&& fs.files[i]->0.kind == KindV::Regular(key)
}

pub open spec fn refresh_upto(fs: BcfsV, fd: u32, key: Seq<u8>, buf: Seq<u8>, n: int) -> Seq<Option<FileV>> {
    Seq::new(
        fs.files.len(),
        |i: int|
            if i < n && shares_key(fs, fd, key, i) {
                Some(refreshed_file(fs.files[i]->0, buf))
            } else {
                fs.files[i]
            },
    )
}

/// Flushing the file at `fd`: the file system afterwards and what goes to the blockchain.
/// Only changed contents are written; stdout and stderr are returned, the log is
/// emitted if it parses, and a regular file is stored, every other descriptor on the
/// same key sees the new contents, and the file is no longer dirty.
pub open spec fn spec_flush(fs: BcfsV, fd: u32) -> Result<(BcfsV, FlushAction), ErrNo> {
    match fs.file_at(fd) {
        None => Err(ErrNo::BadF),
        Some(f) => if !f.dirty {
            Ok((fs, FlushAction::Nothing))
        } else {
            match f.cache {
                CacheV::Absent(_) => Ok((fs, FlushAction::Nothing)),
                CacheV::Present(buf, _) => match f.kind {
                    KindV::Stdout => Ok((fs, FlushAction::Return(buf))),
                    KindV::Stderr => Ok((fs, FlushAction::Error(buf))),
                    KindV::Log => match spec_parse_log(buf) {
                        Some((t, d)) => Ok((fs, FlushAction::Emit(t, d))),
                        None => Ok((fs, FlushAction::Nothing)),
                    },
                    KindV::Regular(key) => {
                        let files = refresh_upto(fs, fd, key, buf, fs.files.len() as int);
                        Ok(
                            (
                                BcfsV {
                                    files: files.update(
                                        fd as int,
                                        Some(FileV { dirty: false, ..f }),
                                    ),
                                    ..fs
                                },
                                FlushAction::Store(key, buf),
                            ),
                        )
                    },
                    _ => Ok((fs, FlushAction::Nothing)),
                },
            }
        },
    }
}

/// Flushing the file at `fd` and then closing its descriptor: the file system
/// afterwards and what goes to the blockchain.
pub open spec fn spec_close(fs: BcfsV, fd: u32) -> Result<(BcfsV, FlushAction), ErrNo> {
    match spec_flush(fs, fd) {
        Err(e) => Err(e),
        Ok((flushed, action)) => Ok(
            (BcfsV { files: flushed.files.update(fd as int, None), ..flushed }, action),
        ),
    }
}

/// A new file system with one more open file, at the next descriptor.
pub open spec fn spec_push(fs: BcfsV, f: FileV) -> BcfsV {
    BcfsV { files: fs.files.push(Some(f)), ..fs }
}

impl BCFS {
    /// Returns the path of the directory at `fd`.
    pub fn prestat<P: PendingTransaction<Address = Address>>(&mut self, _ptx: &mut P, fd: Fd) -> (r: Result<String, ErrNo>)
        ensures
            final(self)@ == old(self)@,
            final(self).wf() == old(self).wf(),
            *final(_ptx) == *old(_ptx),
            match old(self)@.file_at(fd) {
                Some(f) => match f.kind {
                    KindV::Directory(p) => r matches Ok(s) && s@ == p,
                    _ => r == Err::<String, ErrNo>(ErrNo::BadF),
                },
                None => r == Err::<String, ErrNo>(ErrNo::BadF),
            },
    {
        let i = fd as usize;
        if i >= self.files.len() {
            return Err(ErrNo::BadF);
        }
        proof {
            assert(file_views(self.files@)[i as int] == match self.files@[i as int] {
                Some(f) => Some(f@),
                None => None::<FileV>,
            });
        }
        match &self.files[i] {
            Some(f) => match &f.kind {
                FileKind::Directory { path } => Ok(path.clone()),
                _ => Err(ErrNo::BadF),
            },
            None => Err(ErrNo::BadF),
        }
    }

    /// Returns the type and flags of the file at `fd`.
    pub fn fdstat<P: PendingTransaction<Address = Address>>(&self, _ptx: &mut P, fd: Fd) -> (r: Result<FdStat, ErrNo>)
        ensures
            *final(_ptx) == *old(_ptx),
            match self@.file_at(fd) {
                Some(f) => r == Ok::<FdStat, ErrNo>(
                    FdStat {
                        file_type: if f.kind is Directory {
                            FileType::Directory
                        } else {
                            FileType::RegularFile
                        },
                        flags: f.flags,
                        rights_base: ALL_RIGHTS,
                        rights_inheriting: ALL_RIGHTS,
                    },
                ),
                None => r == Err::<FdStat, ErrNo>(ErrNo::BadF),
            },
    {
        let i = fd as usize;
        if i >= self.files.len() {
            return Err(ErrNo::BadF);
        }
        proof {
            assert(file_views(self.files@)[i as int] == match self.files@[i as int] {
                Some(f) => Some(f@),
                None => None::<FileV>,
            });
        }
        match &self.files[i] {
            Some(f) => Ok(FdStat {
                file_type: match &f.kind {
                    FileKind::Directory { .. } => FileType::Directory,
                    _ => FileType::RegularFile,
                },
                flags: f.flags,
                rights_base: ALL_RIGHTS,
                rights_inheriting: ALL_RIGHTS,
            }),
            None => Err(ErrNo::BadF),
        }
    }

    /// Returns the attributes of the file at `fd`, fetching its contents if they are absent.
    pub fn filestat<P: PendingTransaction<Address = Address>>(&mut self, ptx: &P, fd: Fd) -> (r: Result<FileStat, ErrNo>)
        requires
            old(self).wf(),
        ensures
            final(self).wf(),
            match old(self)@.file_at(fd) {
                None => r == Err::<FileStat, ErrNo>(ErrNo::BadF) && final(self)@ == old(self)@,
                Some(f) => match spec_populate(*ptx, f) {
                    Ok((m, g)) => r == Ok::<FileStat, ErrNo>(m) && final(self)@ == old(self)@.with_file(fd, g),
                    Err(e) => r == Err::<FileStat, ErrNo>(e) && final(self)@ == old(self)@,
                },
            },
    {
        let mut file = match self.take_file(fd) {
            Some(f) => f,
            None => return Err(ErrNo::BadF),
        };
        let r = populate_file(ptx, &mut file);
        self.put_file(fd, file);
        proof {
            assert(self@.files =~= old(self)@.files.update(fd as int, Some(file@)));
            if r is Err {
                assert(self@.files =~= old(self)@.files);
            }
        }
        r
    }

    /// Moves the position of the file at `fd` and returns the new position.
    pub fn seek<P: PendingTransaction<Address = Address>>(
        &mut self,
        ptx: &mut P,
        fd: Fd,
        offset: FileDelta,
        whence: Whence,
    ) -> (r: Result<FileSize, ErrNo>)
        requires
            old(self).wf(),
        ensures
            final(self).wf(),
            *final(ptx) == *old(ptx),
            (r, final(self)@) == spec_fd_seek(*old(ptx), old(self)@, fd, offset, whence),
    {
        let ghost fs0 = self@;
        let mut file = match self.take_file(fd) {
            Some(f) => f,
            None => return Err(ErrNo::BadF),
        };
        let ghost f0 = file@;
        proof {
            assert(fs0.files[fd as int] == Some(f0));
        }
        let fetch = match whence {
            Whence::End => true,
            _ => match &file.buf {
                FileCache::Absent(SeekFrom::End(_)) => true,
                _ => false,
            },
        };
        if fetch {
            match populate_file(&*ptx, &mut file) {
                Ok(_) => {},
                Err(e) => {
                    self.put_file(fd, file);
                    proof {
                        assert(self@.files =~= fs0.files);
                    }
                    return Err(e);
                },
            }
        }
        let ghost g = file@;
        let r: Result<FileSize, ErrNo> = match &mut file.buf {
            FileCache::Present(cursor) => match seekfrom_from_offset_whence(offset, whence) {
                Ok(target) => cursor.seek(target),
                Err(e) => Err(e),
            },
            FileCache::Absent(at) => match whence {
                Whence::Start => match seekfrom_from_offset_whence(offset, whence) {
                    Ok(target) => {
                        *at = target;
                        Ok(offset as u64)
                    },
                    Err(e) => Err(e),
                },
                _ => match *at {
                    SeekFrom::Start(cur) => match checked_offset(cur, offset) {
                        Ok(n) => {
                            *at = SeekFrom::Start(n);
                            Ok(n)
                        },
                        Err(e) => Err(e),
                    },
                    _ => {
                        proof {
                            assert(false);
                        }
                        Err(ErrNo::Inval)
                    },
                },
            },
        };
        let ghost gf = file@;
        self.put_file(fd, file);
        proof {
            assert(self@.files =~= fs0.files.update(fd as int, Some(gf)));
            let fetched: Result<FileV, ErrNo> = if fetch {
                match spec_populate(*old(ptx), f0) {
                    Ok((_, g)) => Ok(g),
                    Err(e) => Err(e),
                }
            } else {
                Ok(f0)
            };
            assert(fetch == (whence == Whence::End || f0.cache matches CacheV::Absent(SeekFrom::End(_))));
            assert(fetched == Ok::<FileV, ErrNo>(g));
            if g.cache is Absent && r is Err {
                assert(file@ == g);
                assert(self@.files =~= fs0.files);
            }
            let (sr, sfs) = spec_fd_seek(*old(ptx), fs0, fd, offset, whence);
            assert(sr == r);
            assert(sfs == self@);
        }
        r
    }

    /// Returns the position of the file at `fd`.
    pub fn tell<P: PendingTransaction<Address = Address>>(&mut self, ptx: &mut P, fd: Fd) -> (r: Result<FileSize, ErrNo>)
        requires
            old(self).wf(),
        ensures
            final(self).wf(),
            *final(ptx) == *old(ptx),
            (r, final(self)@) == spec_tell(*old(ptx), old(self)@, fd),
    {
        let ghost fs0 = self@;
        let mut file = match self.take_file(fd) {
            Some(f) => f,
            None => return Err(ErrNo::BadF),
        };
        let ghost f0 = file@;
        proof {
            assert(fs0.files[fd as int] == Some(f0));
        }
        let fetch = match &file.buf {
            FileCache::Absent(SeekFrom::End(_)) => true,
            _ => false,
        };
        if fetch {
            match populate_file(&*ptx, &mut file) {
                Ok(_) => {},
                Err(e) => {
                    self.put_file(fd, file);
                    proof {
                        assert(self@.files =~= fs0.files);
                    }
                    return Err(e);
                },
            }
        }
        let r: Result<FileSize, ErrNo> = match &file.buf {
            FileCache::Present(cursor) => Ok(cursor.pos),
            FileCache::Absent(SeekFrom::Start(o)) => Ok(*o),
            _ => {
                proof {
                    assert(false);
                }
                Err(ErrNo::Inval)
            },
        };
        let ghost g = file@;
        self.put_file(fd, file);
        proof {
            assert(self@.files =~= fs0.files.update(fd as int, Some(g)));
            if g.cache is Absent {
                assert(self@.files =~= fs0.files);
            }
        }
        r
    }

    /// The next descriptor, unless every 32-bit descriptor is taken.
    fn alloc_fd(&self) -> (r: Result<Fd, ErrNo>)
        ensures
            self@.files.len() >= u32::MAX ==> r == Err::<Fd, ErrNo>(ErrNo::NFile),
            self@.files.len() < u32::MAX ==> r == Ok::<Fd, ErrNo>(self@.files.len() as u32),
    {
        if self.files.len() >= u32::MAX as usize {
            return Err(ErrNo::NFile);
        }
        Ok(self.files.len() as u32)
    }

    /// Opens an anonymous empty file and returns its descriptor.
    pub fn tempfile<P: PendingTransaction<Address = Address>>(&mut self, _ptx: &mut P) -> (r: Result<Fd, ErrNo>)
        requires
            old(self).wf(),
        ensures
            final(self).wf(),
            *final(_ptx) == *old(_ptx),
            old(self)@.files.len() >= u32::MAX ==> r == Err::<Fd, ErrNo>(ErrNo::NFile)
                && final(self)@ == old(self)@,
            old(self)@.files.len() < u32::MAX ==> r == Ok::<Fd, ErrNo>(old(self)@.files.len() as u32)
                && final(self)@ == spec_push(
                old(self)@,
                FileV {
                    kind: KindV::Temporary,
                    flags: FdFlags::default_spec(),
                    metadata: Some(spec_filestat_of_size(0)),
                    cache: CacheV::Present(seq![], 0),
                    dirty: false,
                },
            ),
    {
        let fd = self.alloc_fd()?;
        let ghost before = self.files@;
        self.files.push(
            Some(
                File {
                    kind: FileKind::Temporary,
                    flags: FdFlags { append: false, dsync: false, nonblock: false, rsync: false, sync: false },
                    metadata: Some(filestat_of_size(0)),
                    buf: FileCache::Present(Cursor::new(Vec::new())),
                    dirty: false,
                },
            ),
        );
        proof {
            assert(file_views(self.files@) =~= file_views(before).push(Some(self.files@.last()->0@)));
        }
        Ok(fd)
    }

    /// Moves the file at `fd` to `new_fd`, closing the file that was there.
    pub fn renumber<P: PendingTransaction<Address = Address>>(&mut self, _ptx: &mut P, fd: Fd, new_fd: Fd) -> (r: Result<(), ErrNo>)
        requires
            old(self).wf(),
        ensures
            final(self).wf(),
            *final(_ptx) == *old(_ptx),
            if old(self)@.file_at(fd) is Some && old(self)@.file_at(new_fd) is Some {
                r is Ok && final(self)@ == BcfsV {
                    files: old(self)@.files.update(new_fd as int, old(self)@.files[fd as int]).update(
                        fd as int,
                        None,
                    ),
                    ..old(self)@
                }
            } else {
                r == Err::<(), ErrNo>(ErrNo::BadF) && final(self)@ == old(self)@
            },
    {
        if self.has_fd(fd) && self.has_fd(new_fd) {
            let ghost before = self.files@;
            let mut moved: Option<File> = None;
            std::mem::swap(&mut moved, &mut self.files[fd as usize]);
            let ghost moved_view = file_views(before)[fd as int];
            assert(moved_view == match moved {
                Some(f) => Some(f@),
                None => None::<FileV>,
            });
            self.files[new_fd as usize] = moved;
            self.files[fd as usize] = None;
            proof {
                assert(file_views(self.files@) =~= file_views(before).update(
                    new_fd as int,
                    moved_view,
                ).update(fd as int, None));
            }
            Ok(())
        } else {
            Err(ErrNo::BadF)
        }
    }

    /// Writes the contents of the file at `fd` back to the blockchain if they changed.
    pub fn flush<P: PendingTransaction<Address = Address>>(&mut self, ptx: &mut P, fd: Fd) -> (r: Result<(), ErrNo>)
        requires
            old(self).wf(),
        ensures
            final(self).wf(),
            match spec_flush(old(self)@, fd) {
                Err(e) => r == Err::<(), ErrNo>(e) && final(self)@ == old(self)@ && untouched(
                    *old(ptx),
                    *final(ptx),
                ),
                Ok((fs, action)) => r is Ok && final(self)@ == fs && applied(
                    *old(ptx),
                    *final(ptx),
                    action,
                ),
            },
    {
        let i = fd as usize;
        if i >= self.files.len() {
            return Err(ErrNo::BadF);
        }
        proof {
            assert(file_views(self.files@)[i as int] == match self.files@[i as int] {
                Some(f) => Some(f@),
                None => None::<FileV>,
            });
        }
        let (data, key): (Vec<u8>, Option<Vec<u8>>) = match &self.files[i] {
            None => return Err(ErrNo::BadF),
            Some(file) => {
                if !file.dirty {
                    return Ok(());
                }
                let data = match &file.buf {
                    FileCache::Present(cursor) => slice_to_vec_u8(cursor.data.as_slice()),
                    FileCache::Absent(_) => return Ok(()),
                };
                match &file.kind {
                    FileKind::Stdout => {
                        ptx.ret(data.as_slice());
                        return Ok(());
                    },
                    FileKind::Stderr => {
                        ptx.err(data.as_slice());
                        return Ok(());
                    },
                    FileKind::Log => {
                        match parse_log(data.as_slice()) {
                            Some((topics, payload)) => {
                                ptx.emit(topics.as_slice(), payload.as_slice());
                                assert(topics@.map_values(|t: Vec<u8>| t@) =~= topic_views(topics@));
                            },
                            None => {},
                        }
                        return Ok(());
                    },
                    FileKind::Regular { key } => (data, Some(slice_to_vec_u8(key.as_slice()))),
                    _ => return Ok(()),
                }
            },
        };
        let key = match key {
            Some(k) => k,
            None => {
                proof {
                    assert(false);
                }
                return Ok(());
            },
        };
        ptx.state_mut().set(key.as_slice(), data.as_slice());
        let ghost fs0 = self@;
        let len = self.files.len();
        let mut j: usize = HOME_DIR_FILENO as usize + 1;
        while j < len
            invariant
                HOME_DIR_FILENO + 1 <= j <= len,
                len == self.files@.len(),
                fs0 == old(self)@,
                fs0.wf(),
                fs0.files.len() == len,
                self.home_addr == fs0.home,
                i == fd as usize,
                (i as int) < len,
                fs0.files[i as int] is Some,
                self@.files == refresh_upto(fs0, fd, key@, data@, j as int),
            decreases len - j,
        {
            let same_key: bool = if j == i {
                false
            } else {
                match &self.files[j] {
                    Some(f) => {
                        let m = match &f.kind {
                            FileKind::Regular { key: f_key } => bytes_eq(
                                f_key.as_slice(),
                                key.as_slice(),
                            ),
                            _ => false,
                        };
                        proof {
                            if f.kind is Regular {
                                assert(f@.kind == KindV::Regular(f.kind->key@));
                            }
                            assert(m == (f@.kind == KindV::Regular(key@)));
                        }
                        m
                    },
                    None => false,
                }
            };
            proof {
                assert(self@.files[j as int] == fs0.files[j as int]);
                assert(file_views(self.files@)[j as int] == match self.files@[j as int] {
                    Some(f) => Some(f@),
                    None => None::<FileV>,
                });
                assert(same_key == shares_key(fs0, fd, key@, j as int));
            }
            let ghost before_files = self@.files;
            if same_key {
                let mut f = match self.take_file(j as u32) {
                    Some(f) => f,
                    None => {
                        proof {
                            assert(false);
                        }
                        return Ok(());
                    },
                };
                let ghost g = f@;
                let mut cursor = Cursor::new(slice_to_vec_u8(data.as_slice()));
                let target = match &f.buf {
                    FileCache::Absent(t) => *t,
                    FileCache::Present(c) => SeekFrom::Start(c.pos),
                };
                let _ = cursor.seek(target);
                f.buf = FileCache::Present(cursor);
                f.metadata = None;
                proof {
                    assert(f@ == refreshed_file(g, data@));
                }
                self.put_file(j as u32, f);
                assert(self@.files =~= before_files.update(j as int, Some(refreshed_file(g, data@))));
            }
            proof {
                assert(self@.files =~= refresh_upto(fs0, fd, key@, data@, j + 1));
            }
            j = j + 1;
        }
        let mut file = match self.take_file(fd) {
            Some(f) => f,
            None => {
                proof {
                    assert(false);
                }
                return Ok(());
            },
        };
        file.dirty = false;
        self.put_file(fd, file);
        proof {
            assert(self@.files =~= spec_flush(fs0, fd)->Ok_0.0.files);
        }
        Ok(())
    }

    /// Flushes and closes the file at `fd`.
    pub fn close<P: PendingTransaction<Address = Address>>(&mut self, ptx: &mut P, fd: Fd) -> (r: Result<(), ErrNo>)
        requires
            old(self).wf(),
        ensures
            final(self).wf(),
            match spec_close(old(self)@, fd) {
                Err(e) => r == Err::<(), ErrNo>(e) && final(self)@ == old(self)@ && untouched(
                    *old(ptx),
                    *final(ptx),
                ),
                Ok((fs, action)) => r is Ok && final(self)@ == fs && applied(
                    *old(ptx),
                    *final(ptx),
                    action,
                ),
            },
    {
        self.flush(ptx, fd)?;
        match self.take_file(fd) {
            Some(_) => Ok(()),
            None => Err(ErrNo::BadF),
        }
    }

    fn canonicalize_path(&self, curdir: Fd, path: &Vec<char>) -> (r: Result<(Option<Address>, Vec<Vec<char>>), ErrNo>)
        ensures
            match spec_canonicalize(self.home_addr, curdir, path@) {
                Ok((a, c)) => r matches Ok((ra, rc)) && ra == a && views(rc@) == c,
                Err(e) => r == Err::<(Option<Address>, Vec<Vec<char>>), ErrNo>(e),
            },
    {
        if path.len() > 0 && path[0] == '/' {
            return Err(ErrNo::NoEnt);
        }
        let comps = components(path.as_slice());
        let mut start: usize = 0;
        let addr: Option<Address> = if curdir == CHAIN_DIR_FILENO {
            if comps.len() > 0 {
                proof {
                    assert(views(comps@)[0] == comps@[0]@);
                }
                match Address::parse(comps[0].as_slice()) {
                    Some(a) => {
                        start = 1;
                        Some(a)
                    },
                    None => None,
                }
            } else {
                None
            }
        } else {
            Some(self.home_addr)
        };
        proof {
            if start == 1 {
                assert(views(comps@).skip(1) =~= views(comps@).drop_first());
            } else {
                assert(views(comps@).skip(0) =~= views(comps@));
            }
        }
        match fold_components(&comps, start) {
            None => Err(ErrNo::NoEnt),
            Some((canon, named)) => if named {
                Ok((addr, canon))
            } else {
                Err(ErrNo::Inval)
            },
        }
    }

    /// Opens `path` relative to the directory at `curdir` and returns the new descriptor.
    pub fn open<P: PendingTransaction<Address = Address>>(
        &mut self,
        ptx: &mut P,
        curdir: Fd,
        path: &str,
        open_flags: OpenFlags,
        fd_flags: FdFlags,
    ) -> (r: Result<Fd, ErrNo>)
        requires
            old(self).wf(),
        ensures
            final(self).wf(),
            same_chain(*old(ptx), *final(ptx)),
            final(ptx).outputs() == old(ptx).outputs(),
            (r, final(self)@, final(ptx).storage()) == spec_open(
                old(self)@,
                old(ptx).storage(),
                curdir,
                path@,
                open_flags,
                fd_flags,
            ),
    {
        if open_flags.directory {
            return Err(ErrNo::NotSup);
        }
        let c = curdir as usize;
        if c >= self.files.len() {
            return Err(ErrNo::BadF);
        }
        proof {
            assert(file_views(self.files@)[c as int] == match self.files@[c as int] {
                Some(f) => Some(f@),
                None => None::<FileV>,
            });
        }
        match &self.files[c] {
            Some(f) => match &f.kind {
                FileKind::Directory { .. } => {},
                _ => return Err(ErrNo::BadF),
            },
            None => return Err(ErrNo::BadF),
        }
        let chars = crate::path::str_chars(path);
        let (addr, canon) = self.canonicalize_path(curdir, &chars)?;
        let log_word = word(&['l', 'o', 'g']);
        let balance_word = word(&['b', 'a', 'l', 'a', 'n', 'c', 'e']);
        let bytecode_word = word(&['b', 'y', 't', 'e', 'c', 'o', 'd', 'e']);
        assert(log_word@ =~= word_log());
        assert(balance_word@ =~= word_balance());
        assert(bytecode_word@ =~= word_bytecode());
        let mut file_exists = true;
        let file_kind: FileKind = match addr {
            None => {
                if is_single(&canon, &log_word) {
                    FileKind::Log
                } else {
                    return Err(ErrNo::NoEnt);
                }
            },
            Some(a) => {
                if is_single(&canon, &balance_word) {
                    FileKind::Balance { addr: a }
                } else if is_single(&canon, &bytecode_word) {
                    FileKind::Bytecode { addr: a }
                } else if a.same(&self.home_addr) {
                    let key = key_for_path(&canon);
                    file_exists = ptx.state().contains(key.as_slice());
                    if file_exists && open_flags.excl {
                        return Err(ErrNo::Exist);
                    } else if !file_exists && !open_flags.create {
                        return Err(ErrNo::NoEnt);
                    } else if !file_exists {
                        let empty: Vec<u8> = Vec::new();
                        ptx.state_mut().set(key.as_slice(), empty.as_slice());
                        assert(empty@ =~= seq![]);
                    }
                    FileKind::Regular { key }
                } else {
                    return Err(ErrNo::NoEnt);
                }
            },
        };
        if file_kind.is_blockchain_intrinsic() {
            if open_flags.create || open_flags.excl {
                return Err(ErrNo::Exist);
            }
            if open_flags.trunc || open_flags.directory || (file_kind.is_log() && !fd_flags.append) {
                return Err(ErrNo::Inval);
            }
        }
        let fd = self.alloc_fd()?;
        let buf = if !file_exists || open_flags.trunc {
            let c = Cursor::new(Vec::new());
            assert(c.data@ =~= seq![]);
            let b = FileCache::Present(c);
            assert(b@ == CacheV::Present(seq![], 0));
            b
        } else {
            FileCache::Absent(
                if fd_flags.append {
                    SeekFrom::End(0)
                } else {
                    SeekFrom::Start(0)
                },
            )
        };
        let metadata = if file_exists {
            None
        } else {
            Some(filestat_of_size(0))
        };
        let ghost before = self.files@;
        let ghost bufv = buf@;
        let file = File { kind: file_kind, flags: fd_flags, metadata, buf, dirty: false };
        assert(file@.cache == bufv);
        let ghost fv = file@;
        self.files.push(Some(file));
        proof {
            assert(file_views(self.files@) =~= file_views(before).push(Some(fv)));
            let t = spec_open_target(old(self)@.home, old(ptx).storage(), addr, views(canon@), open_flags);
            assert(t == Ok::<(KindV, bool, Map<Seq<u8>, Seq<u8>>), ErrNo>((fv.kind, file_exists, ptx.storage())));
            assert(fv == opened_file(fv.kind, file_exists, open_flags, fd_flags));
        }
        Ok(fd)
    }

    /// Removes the file at `path` and returns the number of bytes previously in the file.
    pub fn unlink<P: PendingTransaction<Address = Address>>(&mut self, ptx: &mut P, curdir: Fd, path: &str) -> (r: Result<u64, ErrNo>)
        ensures
            final(self)@ == old(self)@,
            same_chain(*old(ptx), *final(ptx)),
            final(ptx).outputs() == old(ptx).outputs(),
            (r, final(ptx).storage()) == spec_unlink(
                old(self)@.home,
                old(ptx).storage(),
                curdir,
                path@,
            ),
    {
        if curdir != HOME_DIR_FILENO {
            return Err(ErrNo::Access);
        }
        let chars = crate::path::str_chars(path);
        let (addr, canon) = self.canonicalize_path(curdir, &chars)?;
        match addr {
            Some(a) => if !a.same(&self.home_addr) {
                return Err(ErrNo::Access);
            },
            None => return Err(ErrNo::Access),
        }
        let balance_word = word(&['b', 'a', 'l', 'a', 'n', 'c', 'e']);
        let bytecode_word = word(&['b', 'y', 't', 'e', 'c', 'o', 'd', 'e']);
        assert(balance_word@ =~= word_balance());
        assert(bytecode_word@ =~= word_bytecode());
        if is_single(&canon, &balance_word) || is_single(&canon, &bytecode_word) {
            return Err(ErrNo::Access);
        }
        let key = key_for_path(&canon);
        let prev_len: u64 = match ptx.state().get(key.as_slice()) {
            Some(v) => v.len() as u64,
            None => 0,
        };
        ptx.state_mut().remove(key.as_slice());
        Ok(prev_len)
    }

    fn do_pread_vectored<P: PendingTransaction<Address = Address>>(
        &mut self,
        ptx: &P,
        fd: Fd,
        bufs: &mut Vec<Vec<u8>>,
        offset: Option<u64>,
    ) -> (r: Result<usize, ErrNo>)
        requires
            old(self).wf(),
        ensures
            final(self).wf(),
            (r, final(self)@, buf_views(final(bufs)@)) == spec_read(
                *ptx,
                old(self)@,
                fd,
                buf_views(old(bufs)@),
                offset,
            ),
    {
        let ghost fs0 = self@;
        let mut file = match self.take_file(fd) {
            Some(f) => f,
            None => return Err(ErrNo::BadF),
        };
        let ghost f0 = file@;
        proof {
            assert(fs0.files[fd as int] == Some(f0));
        }
        match &file.kind {
            FileKind::Stdout | FileKind::Stderr | FileKind::Log => {
                self.put_file(fd, file);
                proof {
                    assert(self@.files =~= fs0.files);
                }
                return Err(ErrNo::Inval);
            },
            _ => {},
        }
        match populate_file(ptx, &mut file) {
            Ok(_) => {},
            Err(e) => {
                self.put_file(fd, file);
                proof {
                    assert(self@.files =~= fs0.files);
                }
                return Err(e);
            },
        }
        let r = match &mut file.buf {
            FileCache::Present(cursor) => match offset {
                Some(o) => {
                    let orig = cursor.pos;
                    let _ = cursor.seek(SeekFrom::Start(o));
                    let n = cursor.read_vectored(bufs);
                    cursor.pos = orig;
                    Ok(n)
                },
                None => Ok(cursor.read_vectored(bufs)),
            },
            FileCache::Absent(_) => {
                proof {
                    assert(false);
                }
                Err(ErrNo::Inval)
            },
        };
        let ghost gf = file@;
        self.put_file(fd, file);
        proof {
            assert(self@.files =~= fs0.files.update(fd as int, Some(gf)));
        }
        r
    }

    /// Reads from the position of the file at `fd` into the buffers, in order.
    pub fn read_vectored<P: PendingTransaction<Address = Address>>(
        &mut self,
        ptx: &mut P,
        fd: Fd,
        bufs: &mut Vec<Vec<u8>>,
    ) -> (r: Result<usize, ErrNo>)
        requires
            old(self).wf(),
        ensures
            final(self).wf(),
            *final(ptx) == *old(ptx),
            (r, final(self)@, buf_views(final(bufs)@)) == spec_read(
                *old(ptx),
                old(self)@,
                fd,
                buf_views(old(bufs)@),
                None,
            ),
    {
        self.do_pread_vectored(&*ptx, fd, bufs, None)
    }

    /// Reads from `offset` in the file at `fd` into the buffers, leaving its position.
    pub fn pread_vectored<P: PendingTransaction<Address = Address>>(
        &mut self,
        ptx: &mut P,
        fd: Fd,
        bufs: &mut Vec<Vec<u8>>,
        offset: FileSize,
    ) -> (r: Result<usize, ErrNo>)
        requires
            old(self).wf(),
        ensures
            final(self).wf(),
            *final(ptx) == *old(ptx),
            (r, final(self)@, buf_views(final(bufs)@)) == spec_read(
                *old(ptx),
                old(self)@,
                fd,
                buf_views(old(bufs)@),
                Some(offset),
            ),
    {
        self.do_pread_vectored(&*ptx, fd, bufs, Some(offset))
    }

    fn do_pwrite_vectored<P: PendingTransaction<Address = Address>>(
        &mut self,
        ptx: &P,
        fd: Fd,
        bufs: &Vec<Vec<u8>>,
        offset: Option<u64>,
    ) -> (r: Result<usize, ErrNo>)
        requires
            old(self).wf(),
            write_fits(*ptx, old(self)@, fd, buf_views(bufs@), offset),
        ensures
            final(self).wf(),
            (r, final(self)@) == spec_write_fd(*ptx, old(self)@, fd, buf_views(bufs@), offset),
    {
        let ghost fs0 = self@;
        let mut file = match self.take_file(fd) {
            Some(f) => f,
            None => return Err(ErrNo::BadF),
        };
        let ghost f0 = file@;
        proof {
            assert(fs0.files[fd as int] == Some(f0));
        }
        match &file.kind {
            FileKind::Stdin | FileKind::Bytecode { .. } | FileKind::Balance { .. } => {
                self.put_file(fd, file);
                proof {
                    assert(self@.files =~= fs0.files);
                }
                return Err(ErrNo::Inval);
            },
            _ => {},
        }
        match populate_file(ptx, &mut file) {
            Ok(_) => {},
            Err(e) => {
                self.put_file(fd, file);
                proof {
                    assert(self@.files =~= fs0.files);
                }
                return Err(e);
            },
        }
        let n = match &mut file.buf {
            FileCache::Present(cursor) => match offset {
                Some(o) => {
                    let orig = cursor.pos;
                    let _ = cursor.seek(SeekFrom::Start(o));
                    let n = cursor.write_vectored(bufs);
                    cursor.pos = orig;
                    n
                },
                None => cursor.write_vectored(bufs),
            },
            FileCache::Absent(_) => {
                proof {
                    assert(false);
                }
                0
            },
        };
        if n > 0 {
            file.dirty = true;
        }
        let ghost gf = file@;
        self.put_file(fd, file);
        proof {
            assert(self@.files =~= fs0.files.update(fd as int, Some(gf)));
        }
        Ok(n)
    }

    /// Writes the buffers, in order, at the position of the file at `fd`.
    pub fn write_vectored<P: PendingTransaction<Address = Address>>(
        &mut self,
        ptx: &mut P,
        fd: Fd,
        bufs: &Vec<Vec<u8>>,
    ) -> (r: Result<usize, ErrNo>)
        requires
            old(self).wf(),
            write_fits(*old(ptx), old(self)@, fd, buf_views(bufs@), None),
        ensures
            final(self).wf(),
            *final(ptx) == *old(ptx),
            (r, final(self)@) == spec_write_fd(*old(ptx), old(self)@, fd, buf_views(bufs@), None),
    {
        self.do_pwrite_vectored(&*ptx, fd, bufs, None)
    }

    /// Writes the buffers, in order, at `offset` in the file at `fd`, leaving its position.
    pub fn pwrite_vectored<P: PendingTransaction<Address = Address>>(
        &mut self,
        ptx: &mut P,
        fd: Fd,
        bufs: &Vec<Vec<u8>>,
        offset: FileSize,
    ) -> (r: Result<usize, ErrNo>)
        requires
            old(self).wf(),
            write_fits(*old(ptx), old(self)@, fd, buf_views(bufs@), Some(offset)),
        ensures
            final(self).wf(),
            *final(ptx) == *old(ptx),
            (r, final(self)@) == spec_write_fd(
                *old(ptx),
                old(self)@,
                fd,
                buf_views(bufs@),
                Some(offset),
            ),
    {
        self.do_pwrite_vectored(&*ptx, fd, bufs, Some(offset))
    }
}

} // verus!
