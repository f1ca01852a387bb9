//! The WASI values that the blockchain file system reads and hands back.
use vstd::prelude::*;

verus! {

/// A file descriptor number.
pub type Fd = u32;

/// Relative offset within a file.
pub type FileDelta = i64;

/// A file size or absolute offset.
pub type FileSize = u64;

/// Every right that WASI defines (bits 0 to 27).
pub const ALL_RIGHTS: u64 = 0x0fff_ffff;

/// Error codes returned by the file system.
#[derive(Clone, Copy, PartialEq, Eq, Structural, Debug)]
pub enum ErrNo {
    /// No error occurred.
    Success,
    /// Permission denied.
    Access,
    /// Bad file descriptor.
    BadF,
    /// File exists.
    Exist,
    /// Bad address.
    Fault,
    /// Invalid argument.
    Inval,
    /// Too many files open in system.
    NFile,
    /// No such file or directory.
    NoEnt,
    /// Not supported.
    NotSup,
}

/// Flags that apply when a file is opened.
#[derive(Clone, Copy, PartialEq, Eq, Structural, Debug, Default)]
pub struct OpenFlags {
    /// Create the file if it does not exist.
    pub create: bool,
    /// Fail if not a directory.
    pub directory: bool,
    /// Fail if the file already exists.
    pub excl: bool,
    /// Truncate the file to size 0.
    pub trunc: bool,
}

/// File descriptor flags.
#[derive(Clone, Copy, PartialEq, Eq, Structural, Debug, Default)]
pub struct FdFlags {
    /// Data written to the file is always appended to the file's end.
    pub append: bool,
    /// Synchronized I/O data integrity completion.
    pub dsync: bool,
    /// Non-blocking mode.
    pub nonblock: bool,
    /// Synchronized read I/O operations.
    pub rsync: bool,
    /// Synchronized I/O file integrity completion.
    pub sync: bool,
}

impl FdFlags {
    /// No flag set.
    pub open spec fn default_spec() -> FdFlags {
        FdFlags { append: false, dsync: false, nonblock: false, rsync: false, sync: false }
    }
}

/// The position relative to which to set the offset of a file descriptor.
#[derive(Clone, Copy, PartialEq, Eq, Structural, Debug)]
pub enum Whence {
    Current,
    End,
    Start,
}

/// The type of a file descriptor or file.
#[derive(Clone, Copy, PartialEq, Eq, Structural, Debug)]
pub enum FileType {
    Unknown,
    BlockDevice,
    CharacterDevice,
    Directory,
    RegularFile,
    SocketDgram,
    SocketStream,
    SymbolicLink,
}

/// File attributes.
#[derive(Clone, Copy, PartialEq, Eq, Structural, Debug)]
pub struct FileStat {
    pub device: u64,
    pub inode: u64,
    pub file_type: FileType,
    pub num_links: u64,
    pub file_size: FileSize,
    pub atime: u64,
    pub mtime: u64,
    pub ctime: u64,
}

/// File descriptor attributes.
#[derive(Clone, Copy, PartialEq, Eq, Structural, Debug)]
pub struct FdStat {
    pub file_type: FileType,
    pub flags: FdFlags,
    /// Rights that apply to this file descriptor.
    pub rights_base: u64,
    /// Rights that may be installed on descriptors created through this one.
    pub rights_inheriting: u64,
}

/// The attributes of a regular file of the given size that the file system
/// knows nothing else about.
pub open spec fn spec_filestat_of_size(size: u64) -> FileStat {
    FileStat {
        device: 0,
        inode: 0,
        file_type: FileType::RegularFile,
        num_links: 0,
        file_size: size,
        atime: 0,
        mtime: 0,
        ctime: 0,
    }
}

pub fn filestat_of_size(size: u64) -> (s: FileStat)
    ensures
        s == spec_filestat_of_size(size),
{
    FileStat {
        device: 0,
        inode: 0,
        file_type: FileType::RegularFile,
        num_links: 0,
        file_size: size,
        atime: 0,
        mtime: 0,
        ctime: 0,
    }
}

} // verus!
