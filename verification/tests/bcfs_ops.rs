use std::collections::HashMap;

use mantle_core::address::Address;
use mantle_core::bcfs::BCFS;
use mantle_core::blockchain::{
    AccountMeta, Event, KVStore, KVStoreMut, PendingTransaction, Receipt, TransactionOutcome,
};
use mantle_core::file::{CHAIN_DIR_FILENO, HOME_DIR_FILENO};
use mantle_core::wasi::{ErrNo, Fd, FdFlags, OpenFlags, Whence};

const ADDR_1: Address = Address([1u8; 20]);
const ADDR_2: Address = Address([2u8; 20]);
const CHAIN_NAME: &str = "testchain";

#[derive(Clone, Debug, Default)]
struct Store {
    kv: HashMap<Vec<u8>, Vec<u8>>,
}

impl KVStore for Store {
    fn contains(&self, key: &[u8]) -> bool {
        self.kv.contains_key(key)
    }

    fn get(&self, key: &[u8]) -> Option<Vec<u8>> {
        self.kv.get(key).cloned()
    }
}

impl KVStoreMut for Store {
    fn set(&mut self, key: &[u8], value: &[u8]) {
        self.kv.insert(key.to_vec(), value.to_vec());
    }

    fn remove(&mut self, key: &[u8]) {
        self.kv.remove(key);
    }
}

struct Meta(u64);

impl AccountMeta for Meta {
    fn balance(&self) -> u64 {
        self.0
    }
}

struct Emitted {
    emitter: Address,
    topics: Vec<Vec<u8>>,
    data: Vec<u8>,
}

impl Event for Emitted {
    type Address = Address;

    fn emitter(&self) -> &Address {
        &self.emitter
    }

    fn topics(&self) -> Vec<&[u8]> {
        self.topics.iter().map(|t| t.as_slice()).collect()
    }

    fn data(&self) -> &[u8] {
        &self.data
    }
}

struct Outcome {
    caller: Address,
    callee: Address,
    outcome: TransactionOutcome,
}

impl Receipt for Outcome {
    type Address = Address;
    type Event = Emitted;

    fn caller(&self) -> &Address {
        &self.caller
    }

    fn callee(&self) -> &Address {
        &self.callee
    }

    fn gas_used(&self) -> u64 {
        0
    }

    fn events(&self) -> Vec<&Emitted> {
        Vec::new()
    }

    fn outcome(&self) -> TransactionOutcome {
        self.outcome
    }

    fn output(&self) -> &[u8] {
        &[]
    }
}

/// A transaction of service `ADDR_2` called by `ADDR_1`, over two accounts.
struct Tx {
    address: Address,
    sender: Address,
    input: Vec<u8>,
    state: Store,
    code: HashMap<[u8; 20], Vec<u8>>,
    balances: HashMap<[u8; 20], u64>,
    returned: Vec<Vec<u8>>,
    errors: Vec<Vec<u8>>,
    events: Vec<(Vec<Vec<u8>>, Vec<u8>)>,
}

impl Tx {
    fn new() -> Self {
        let mut state = Store::default();
        state.set(b"common_key", b"common_value");
        state.set(b"key_2", b"value_2");
        let mut code = HashMap::new();
        code.insert(ADDR_1.0, b"\0asm not wasm 1".to_vec());
        code.insert(ADDR_2.0, b"\0asm not wasm 2".to_vec());
        let mut balances = HashMap::new();
        balances.insert(ADDR_1.0, 1_000_000_000u64);
        balances.insert(ADDR_2.0, 2_000_000_000u64);
        Tx {
            address: ADDR_2,
            sender: ADDR_1,
            input: b"input".to_vec(),
            state,
            code,
            balances,
            returned: Vec::new(),
            errors: Vec::new(),
            events: Vec::new(),
        }
    }
}

impl PendingTransaction for Tx {
    type Address = Address;
    type AccountMeta = Meta;
    type Receipt = Outcome;
    type State = Store;

    fn address(&self) -> &Address {
        &self.address
    }

    fn sender(&self) -> &Address {
        &self.sender
    }

    fn value(&self) -> u64 {
        42
    }

    fn input(&self) -> &[u8] {
        &self.input
    }

    fn transact(&mut self, callee: Address, _value: u64, _input: &[u8]) -> Outcome {
        Outcome { caller: self.address, callee, outcome: TransactionOutcome::Success }
    }

    fn ret(&mut self, data: &[u8]) {
        self.returned.push(data.to_vec());
    }

    fn err(&mut self, data: &[u8]) {
        self.errors.push(data.to_vec());
    }

    fn emit(&mut self, topics: &[Vec<u8>], data: &[u8]) {
        self.events.push((topics.to_vec(), data.to_vec()));
    }

    fn state(&self) -> &Store {
        &self.state
    }

    fn state_mut(&mut self) -> &mut Store {
        &mut self.state
    }

    fn code_at(&self, addr: &Address) -> Option<&[u8]> {
        self.code.get(&addr.0).map(|c| c.as_slice())
    }

    fn account_meta_at(&self, addr: &Address) -> Option<Meta> {
        self.balances.get(&addr.0).map(|b| Meta(*b))
    }
}

fn hex(a: &Address) -> String {
    a.0.iter().map(|b| format!("{:02x}", b)).collect()
}

/// A known-good home directory, relative to the chain directory.
fn good_home() -> String {
    hex(&ADDR_2)
}

fn no_oflags() -> OpenFlags {
    OpenFlags::default()
}

fn create() -> OpenFlags {
    OpenFlags { create: true, ..OpenFlags::default() }
}

fn no_fdflags() -> FdFlags {
    FdFlags::default()
}

fn bufs(parts: &[&str]) -> Vec<Vec<u8>> {
    parts.iter().map(|p| p.as_bytes().to_vec()).collect()
}

fn zeroed(parts: &[&str]) -> Vec<Vec<u8>> {
    parts.iter().map(|p| vec![0u8; p.len()]).collect()
}

#[test]
fn close_fd() {
    let mut ptx = Tx::new();
    let mut bcfs = BCFS::new(ADDR_2, CHAIN_NAME);
    for fd in 0u32..=3 {
        assert!(bcfs.close(&mut ptx, fd).is_ok());
        assert_eq!(bcfs.close(&mut ptx, fd), Err(ErrNo::BadF));
    }
    for fd in (HOME_DIR_FILENO + 1)..10 {
        assert_eq!(bcfs.close(&mut ptx, fd), Err(ErrNo::BadF));
    }
}

#[test]
fn open_close() {
    let mut ptx = Tx::new();
    let mut bcfs = BCFS::new(ADDR_2, CHAIN_NAME);
    let abspath = format!("{}/././somefile/../somefile", good_home());
    let relpath = "./././././somefile/../somefile/.";

    let abs_fd = bcfs.open(&mut ptx, CHAIN_DIR_FILENO, &abspath, create(), no_fdflags()).unwrap();
    let excl = OpenFlags { excl: true, ..OpenFlags::default() };
    assert_eq!(
        bcfs.open(&mut ptx, CHAIN_DIR_FILENO, &abspath, excl, no_fdflags()),
        Err(ErrNo::Exist)
    );
    let abs_fd2 =
        bcfs.open(&mut ptx, CHAIN_DIR_FILENO, &abspath, no_oflags(), no_fdflags()).unwrap();
    let append = FdFlags { append: true, ..FdFlags::default() };
    let rel_fd = bcfs.open(&mut ptx, HOME_DIR_FILENO, relpath, no_oflags(), append).unwrap();

    assert!(bcfs.close(&mut ptx, abs_fd).is_ok());
    assert!(bcfs.close(&mut ptx, abs_fd2).is_ok());
    assert!(bcfs.close(&mut ptx, rel_fd).is_ok());
}

#[test]
fn read_write_basic() {
    let mut ptx = Tx::new();
    let mut bcfs = BCFS::new(ADDR_2, CHAIN_NAME);
    let fd = bcfs.open(&mut ptx, HOME_DIR_FILENO, "somefile", create(), no_fdflags()).unwrap();

    let write_bufs = ["hello", "world"];
    let nbytes: usize = write_bufs.iter().map(|b| b.len()).sum();

    let mut read_bufs = zeroed(&write_bufs);
    assert_eq!(bcfs.read_vectored(&mut ptx, fd, &mut read_bufs), Ok(0));

    assert_eq!(bcfs.write_vectored(&mut ptx, fd, &bufs(&write_bufs)), Ok(nbytes));
    let mut read_bufs = zeroed(&write_bufs);
    assert_eq!(bcfs.read_vectored(&mut ptx, fd, &mut read_bufs), Ok(0));

    assert_eq!(bcfs.seek(&mut ptx, fd, 0, Whence::Start), Ok(0));
    let mut read_bufs = zeroed(&write_bufs);
    assert_eq!(bcfs.read_vectored(&mut ptx, fd, &mut read_bufs), Ok(nbytes));
    assert_eq!(read_bufs, bufs(&write_bufs));
    assert_eq!(bcfs.read_vectored(&mut ptx, fd, &mut read_bufs), Ok(0));

    assert_eq!(bcfs.seek(&mut ptx, fd, -(nbytes as i64), Whence::End), Ok(0));
    let mut read_bufs = zeroed(&write_bufs);
    assert_eq!(bcfs.read_vectored(&mut ptx, fd, &mut read_bufs), Ok(nbytes));
    assert_eq!(read_bufs, bufs(&write_bufs));

    assert_eq!(bcfs.seek(&mut ptx, fd, -(nbytes as i64 - 2), Whence::Current), Ok(2));
    assert_eq!(bcfs.seek(&mut ptx, fd, -2, Whence::Current), Ok(0));

    assert_eq!(bcfs.seek(&mut ptx, fd, 0, Whence::End), Ok(nbytes as u64));
    let write_bufs = ["hello", "blockchain"];
    let new_nbytes: usize = write_bufs.iter().map(|b| b.len()).sum();
    assert_eq!(bcfs.pwrite_vectored(&mut ptx, fd, &bufs(&write_bufs), 0), Ok(new_nbytes));
    assert_eq!(bcfs.tell(&mut ptx, fd), Ok(nbytes as u64));
    let mut read_bufs = zeroed(&write_bufs);
    assert_eq!(bcfs.pread_vectored(&mut ptx, fd, &mut read_bufs, 0), Ok(new_nbytes));
    assert_eq!(read_bufs, bufs(&write_bufs));
}

#[test]
fn write_consecutive() {
    let mut ptx = Tx::new();
    let mut bcfs = BCFS::new(ADDR_2, CHAIN_NAME);
    let fd = bcfs.open(&mut ptx, HOME_DIR_FILENO, "somefile", create(), no_fdflags()).unwrap();

    let write_bufs: &[&[u8]] = &[b"hello", b" world"];
    let nbytes: usize = write_bufs.iter().map(|buf| buf.len()).sum();
    for wb in write_bufs {
        assert_eq!(bcfs.write_vectored(&mut ptx, fd, &vec![wb.to_vec()]), Ok(wb.len()));
    }
    assert_eq!(bcfs.seek(&mut ptx, fd, -(nbytes as i64) + 1, Whence::Current), Ok(1));

    let mut read_buf = vec![vec![0u8; nbytes]];
    assert_eq!(bcfs.read_vectored(&mut ptx, fd, &mut read_buf), Ok(nbytes - 1));
    let all: Vec<u8> = write_bufs.iter().flat_map(|buf| buf.iter().cloned()).collect();
    assert_eq!(read_buf[0][..nbytes - 1], all[1..]);
    assert_eq!(read_buf[0][nbytes - 1], 0);
}

#[test]
fn read_write_aliased() {
    let mut ptx = Tx::new();
    let mut bcfs = BCFS::new(ADDR_2, CHAIN_NAME);
    let abspath = format!("{}/somefile", good_home());

    let rel_fd = bcfs.open(&mut ptx, HOME_DIR_FILENO, "somefile", create(), no_fdflags()).unwrap();
    let abs_fd =
        bcfs.open(&mut ptx, CHAIN_DIR_FILENO, &abspath, no_oflags(), no_fdflags()).unwrap();

    let write_bufs = ["hello", "world"];
    let nbytes: usize = write_bufs.iter().map(|b| b.len()).sum();
    assert_eq!(bcfs.write_vectored(&mut ptx, abs_fd, &bufs(&write_bufs)), Ok(nbytes));
    let rel_seek = 1;
    assert_eq!(bcfs.write_vectored(&mut ptx, rel_fd, &bufs(&["!"])), Ok(rel_seek));
    bcfs.flush(&mut ptx, abs_fd).unwrap();

    let mut read_bufs = zeroed(&write_bufs);
    assert_eq!(bcfs.read_vectored(&mut ptx, rel_fd, &mut read_bufs), Ok(nbytes - rel_seek));
    assert_eq!(read_bufs, vec![b"ellow".to_vec(), b"orld\0".to_vec()]);

    bcfs.flush(&mut ptx, rel_fd).unwrap();

    bcfs.seek(&mut ptx, abs_fd, 0, Whence::Start).unwrap();
    let mut read_bufs = zeroed(&write_bufs);
    assert_eq!(bcfs.read_vectored(&mut ptx, abs_fd, &mut read_bufs), Ok(nbytes));
    assert_eq!(read_bufs, bufs(&write_bufs));
}

#[test]
fn badf() {
    let mut ptx = Tx::new();
    let mut bcfs = BCFS::new(ADDR_2, CHAIN_NAME);
    let badf: Fd = 99;

    assert_eq!(bcfs.read_vectored(&mut ptx, badf, &mut Vec::new()), Err(ErrNo::BadF));
    assert_eq!(bcfs.write_vectored(&mut ptx, badf, &Vec::new()), Err(ErrNo::BadF));
    assert_eq!(bcfs.pread_vectored(&mut ptx, badf, &mut Vec::new(), 0), Err(ErrNo::BadF));
    assert_eq!(bcfs.pwrite_vectored(&mut ptx, badf, &Vec::new(), 0), Err(ErrNo::BadF));
    assert_eq!(bcfs.seek(&mut ptx, badf, 0, Whence::Start), Err(ErrNo::BadF));
    assert_eq!(bcfs.fdstat(&mut ptx, badf).unwrap_err(), ErrNo::BadF);
    assert_eq!(bcfs.filestat(&ptx, badf).unwrap_err(), ErrNo::BadF);
    assert_eq!(bcfs.tell(&mut ptx, badf).unwrap_err(), ErrNo::BadF);
    assert_eq!(bcfs.renumber(&mut ptx, badf, badf).unwrap_err(), ErrNo::BadF);
    assert_eq!(bcfs.close(&mut ptx, badf), Err(ErrNo::BadF));
}

#[test]
fn renumber() {
    let mut ptx = Tx::new();
    let mut bcfs = BCFS::new(ADDR_2, CHAIN_NAME);
    let somefile_fd =
        bcfs.open(&mut ptx, HOME_DIR_FILENO, "somefile", create(), no_fdflags()).unwrap();
    let anotherfile_fd =
        bcfs.open(&mut ptx, HOME_DIR_FILENO, "anotherfile", create(), no_fdflags()).unwrap();

    let write_bufs = ["destination", "somefile"];
    bcfs.write_vectored(&mut ptx, somefile_fd, &bufs(&write_bufs)).unwrap();
    bcfs.renumber(&mut ptx, somefile_fd, anotherfile_fd).unwrap();

    assert_eq!(bcfs.read_vectored(&mut ptx, somefile_fd, &mut Vec::new()), Err(ErrNo::BadF));
    let mut read_buf = vec![vec![0u8; 1]];
    assert_eq!(bcfs.pread_vectored(&mut ptx, anotherfile_fd, &mut read_buf, 0), Ok(1));
    assert_eq!(
        bcfs.tell(&mut ptx, anotherfile_fd),
        Ok(write_bufs.iter().map(|b| b.len() as u64).sum())
    );
}

#[test]
fn unlink() {
    let mut ptx = Tx::new();
    let mut bcfs = BCFS::new(ADDR_2, CHAIN_NAME);
    let fd = bcfs.open(&mut ptx, HOME_DIR_FILENO, "somefile", create(), no_fdflags()).unwrap();
    let write_val = b"not empty";
    assert_eq!(bcfs.write_vectored(&mut ptx, fd, &vec![write_val.to_vec()]), Ok(write_val.len()));
    assert!(bcfs.close(&mut ptx, fd).is_ok());
    assert_eq!(bcfs.unlink(&mut ptx, HOME_DIR_FILENO, "somefile"), Ok(write_val.len() as u64));
    assert_eq!(
        bcfs.open(&mut ptx, HOME_DIR_FILENO, "somefile", no_oflags(), no_fdflags()),
        Err(ErrNo::NoEnt)
    );
}

fn write_twice(oflags: OpenFlags, fdflags: FdFlags) -> String {
    let mut ptx = Tx::new();
    let mut bcfs = BCFS::new(ADDR_2, CHAIN_NAME);
    let first = "some initial, rather lengthy value";
    let second = "a second value";
    for val in [first, second].iter() {
        let flags = OpenFlags { create: true, ..oflags };
        let fd = bcfs.open(&mut ptx, HOME_DIR_FILENO, "somefile", flags, fdflags).unwrap();
        bcfs.write_vectored(&mut ptx, fd, &bufs(&[val])).unwrap();
        bcfs.close(&mut ptx, fd).unwrap();
    }
    let fd = bcfs.open(&mut ptx, HOME_DIR_FILENO, "somefile", no_oflags(), no_fdflags()).unwrap();
    let mut read_buf = vec![vec![b' '; first.len() + second.len()]];
    bcfs.read_vectored(&mut ptx, fd, &mut read_buf).unwrap();
    String::from_utf8(read_buf.remove(0)).unwrap().trim().to_string()
}

#[test]
fn write_trunc() {
    let trunc = OpenFlags { trunc: true, ..OpenFlags::default() };
    assert_eq!(write_twice(trunc, no_fdflags()), "a second value");
}

#[test]
fn write_append() {
    let append = FdFlags { append: true, ..FdFlags::default() };
    assert_eq!(
        write_twice(no_oflags(), append),
        "some initial, rather lengthy valuea second value"
    );
}

#[test]
fn write_trunc_append() {
    let trunc = OpenFlags { trunc: true, ..OpenFlags::default() };
    let append = FdFlags { append: true, ..FdFlags::default() };
    assert_eq!(write_twice(trunc, append), "a second value");
}

#[test]
fn flushed_file_is_stored_under_its_path() {
    let mut ptx = Tx::new();
    let mut bcfs = BCFS::new(ADDR_2, CHAIN_NAME);
    let fd = bcfs.open(&mut ptx, HOME_DIR_FILENO, "dir/../a_file", create(), no_fdflags()).unwrap();
    bcfs.write_vectored(&mut ptx, fd, &bufs(&["stored"])).unwrap();
    assert_eq!(ptx.state().get(b"a_file"), Some(Vec::new()));
    bcfs.flush(&mut ptx, fd).unwrap();
    assert_eq!(ptx.state().get(b"a_file"), Some(b"stored".to_vec()));
}

#[test]
fn stdout_and_stderr_are_returned_on_flush() {
    let mut ptx = Tx::new();
    let mut bcfs = BCFS::new(ADDR_2, CHAIN_NAME);
    bcfs.write_vectored(&mut ptx, 1, &bufs(&["out"])).unwrap();
    bcfs.write_vectored(&mut ptx, 2, &bufs(&["err"])).unwrap();
    bcfs.flush(&mut ptx, 1).unwrap();
    bcfs.close(&mut ptx, 2).unwrap();
    assert_eq!(ptx.returned, vec![b"out".to_vec()]);
    assert_eq!(ptx.errors, vec![b"err".to_vec()]);
}

#[test]
fn stdin_reads_the_input() {
    let mut ptx = Tx::new();
    let mut bcfs = BCFS::new(ADDR_2, CHAIN_NAME);
    let mut read_buf = vec![vec![0u8; 8]];
    assert_eq!(bcfs.read_vectored(&mut ptx, 0, &mut read_buf), Ok(5));
    assert_eq!(&read_buf[0][..5], b"input");
    assert_eq!(bcfs.write_vectored(&mut ptx, 0, &bufs(&["x"])), Err(ErrNo::Inval));
}

#[test]
fn balance_and_bytecode_of_other_accounts() {
    let mut ptx = Tx::new();
    let mut bcfs = BCFS::new(ADDR_2, CHAIN_NAME);
    let balance_path = format!("{}/balance", hex(&ADDR_1));
    let fd = bcfs.open(&mut ptx, CHAIN_DIR_FILENO, &balance_path, no_oflags(), no_fdflags()).unwrap();
    let mut read_buf = vec![vec![0u8; 8]];
    assert_eq!(bcfs.read_vectored(&mut ptx, fd, &mut read_buf), Ok(8));
    assert_eq!(read_buf[0], 1_000_000_000u64.to_le_bytes().to_vec());

    let code_path = format!("{}/bytecode", hex(&ADDR_1));
    let fd = bcfs.open(&mut ptx, CHAIN_DIR_FILENO, &code_path, no_oflags(), no_fdflags()).unwrap();
    let mut read_buf = vec![vec![0u8; 32]];
    assert_eq!(bcfs.read_vectored(&mut ptx, fd, &mut read_buf), Ok(15));
    assert_eq!(&read_buf[0][..15], b"\0asm not wasm 1");

    assert_eq!(
        bcfs.open(&mut ptx, CHAIN_DIR_FILENO, &balance_path, create(), no_fdflags()),
        Err(ErrNo::Exist)
    );
    assert_eq!(bcfs.unlink(&mut ptx, HOME_DIR_FILENO, "balance"), Err(ErrNo::Access));
}

#[test]
fn log_is_emitted_when_it_parses() {
    let mut ptx = Tx::new();
    let mut bcfs = BCFS::new(ADDR_2, CHAIN_NAME);
    let append = FdFlags { append: true, ..FdFlags::default() };
    assert_eq!(
        bcfs.open(&mut ptx, CHAIN_DIR_FILENO, "log", no_oflags(), no_fdflags()),
        Err(ErrNo::Inval)
    );
    let fd = bcfs.open(&mut ptx, CHAIN_DIR_FILENO, "log", no_oflags(), append).unwrap();
    let mut log = Vec::new();
    log.extend_from_slice(&1u32.to_le_bytes());
    log.extend_from_slice(&3u32.to_le_bytes());
    log.extend_from_slice(b"abc");
    log.extend_from_slice(&2u32.to_le_bytes());
    log.extend_from_slice(b"hi");
    bcfs.write_vectored(&mut ptx, fd, &vec![log]).unwrap();
    bcfs.close(&mut ptx, fd).unwrap();
    assert_eq!(ptx.events, vec![(vec![b"abc".to_vec()], b"hi".to_vec())]);
}

#[test]
fn paths_outside_the_file_system_are_refused() {
    let mut ptx = Tx::new();
    let mut bcfs = BCFS::new(ADDR_2, CHAIN_NAME);
    assert_eq!(
        bcfs.open(&mut ptx, HOME_DIR_FILENO, "/etc/passwd", create(), no_fdflags()),
        Err(ErrNo::NoEnt)
    );
    assert_eq!(
        bcfs.open(&mut ptx, HOME_DIR_FILENO, "../escape", create(), no_fdflags()),
        Err(ErrNo::NoEnt)
    );
    let dir = OpenFlags { directory: true, ..OpenFlags::default() };
    assert_eq!(
        bcfs.open(&mut ptx, HOME_DIR_FILENO, "somefile", dir, no_fdflags()),
        Err(ErrNo::NotSup)
    );
    assert_eq!(
        bcfs.open(&mut ptx, 1, "somefile", create(), no_fdflags()),
        Err(ErrNo::BadF)
    );
    assert_eq!(bcfs.unlink(&mut ptx, CHAIN_DIR_FILENO, "somefile"), Err(ErrNo::Access));
}

#[test]
fn prestat_names_the_directories() {
    let mut ptx = Tx::new();
    let mut bcfs = BCFS::new(ADDR_2, CHAIN_NAME);
    assert_eq!(bcfs.prestat(&mut ptx, HOME_DIR_FILENO), Ok(".".to_string()));
    assert_eq!(bcfs.prestat(&mut ptx, 1), Err(ErrNo::BadF));
    let temp = bcfs.tempfile(&mut ptx).unwrap();
    assert_eq!(temp, HOME_DIR_FILENO + 1);
    assert_eq!(bcfs.fdstat(&mut ptx, temp).unwrap().flags, FdFlags::default());
}
