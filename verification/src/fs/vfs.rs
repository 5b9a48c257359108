//! Core VFS types: nodes, attributes, directory entries, open flags,
//! errors and the interface of a file system.

use vstd::prelude::*;

verus! {

/// Kind of a node.
#[derive(Debug, Clone, Copy, PartialEq, Eq, Structural)]
pub enum VNodeType {
    File,
    Directory,
}

/// A node of a file system.
#[derive(Debug, Clone, PartialEq, Eq)]
pub struct VNode {
    /// Node identifier.
    pub id: u64,
    /// Node kind.
    pub vtype: VNodeType,
    /// Absolute path.
    pub path: String,
}

impl VNode {
    /// Creates a node.
    pub fn new(id: u64, vtype: VNodeType, path: String) -> (r: Self)
        ensures
            r.id == id,
            r.vtype == vtype,
            r.path@ == path@,
    {
        VNode { id, vtype, path }
    }
}

/// Attributes of a node.
#[derive(Debug, Clone)]
pub struct VNodeAttr {
    /// Size in bytes.
    pub size: usize,
    /// Node kind.
    pub vtype: VNodeType,
}

/// An entry of a directory listing.
#[derive(Debug, Clone)]
pub struct DirEntry {
    /// Entry name.
    pub name: String,
    /// Entry kind.
    pub vtype: VNodeType,
}

impl DirEntry {
    /// Creates a directory entry.
    pub fn new(name: String, vtype: VNodeType) -> (r: Self)
        ensures
            r.name@ == name@,
            r.vtype == vtype,
    {
        DirEntry { name, vtype }
    }
}

/// How a file is opened.
#[derive(Debug, Clone, Copy, PartialEq, Eq, Structural)]
pub struct OpenFlags {
    pub read: bool,
    pub write: bool,
    pub create: bool,
    pub truncate: bool,
    pub append: bool,
}

impl OpenFlags {
    /// Read only.
    pub fn read_only() -> (r: Self)
        ensures
            r == (OpenFlags { read: true, write: false, create: false, truncate: false, append: false }),
    {
        OpenFlags { read: true, write: false, create: false, truncate: false, append: false }
    }

    /// Write only.
    pub fn write_only() -> (r: Self)
        ensures
            r == (OpenFlags { read: false, write: true, create: false, truncate: false, append: false }),
    {
        OpenFlags { read: false, write: true, create: false, truncate: false, append: false }
    }

    /// Read and write.
    pub fn read_write() -> (r: Self)
        ensures
            r == (OpenFlags { read: true, write: true, create: false, truncate: false, append: false }),
    {
        OpenFlags { read: true, write: true, create: false, truncate: false, append: false }
    }

    /// Create (or truncate) for writing.
    pub fn create_new() -> (r: Self)
        ensures
            r == (OpenFlags { read: false, write: true, create: true, truncate: true, append: false }),
    {
        OpenFlags { read: false, write: true, create: true, truncate: true, append: false }
    }
}

/// Origin of a seek.
#[derive(Debug, Clone, Copy, PartialEq, Eq, Structural)]
pub enum SeekWhence {
    Start,
    Current,
    End,
}

/// File system errors.
#[derive(Debug, Clone, Copy, PartialEq, Eq, Structural)]
pub enum FsError {
    NotFound,
    AlreadyExists,
    NotADirectory,
    IsADirectory,
    InvalidPath,
    PermissionDenied,
    DirectoryNotEmpty,
    NoSpace,
    InvalidArgument,
    IoError,
}

impl FsError {
    /// The human-readable description of the error.
    pub fn message(&self) -> (r: &'static str)
        ensures
            r@ == (match *self {
                FsError::NotFound => "File or directory not found"@,
                FsError::AlreadyExists => "File or directory already exists"@,
                FsError::NotADirectory => "Not a directory"@,
                FsError::IsADirectory => "Is a directory"@,
                FsError::InvalidPath => "Invalid path"@,
                FsError::PermissionDenied => "Permission denied"@,
                FsError::DirectoryNotEmpty => "Directory not empty"@,
                FsError::NoSpace => "No space left"@,
                FsError::InvalidArgument => "Invalid argument"@,
                FsError::IoError => "I/O error"@,
            }),
    {
        match self {
            FsError::NotFound => "File or directory not found",
            FsError::AlreadyExists => "File or directory already exists",
            FsError::NotADirectory => "Not a directory",
            FsError::IsADirectory => "Is a directory",
            FsError::InvalidPath => "Invalid path",
            FsError::PermissionDenied => "Permission denied",
            FsError::DirectoryNotEmpty => "Directory not empty",
            FsError::NoSpace => "No space left",
            FsError::InvalidArgument => "Invalid argument",
            FsError::IoError => "I/O error",
        }
    }
}

/// The interface a file system offers to the VFS.
pub trait FileSystem {
    /// The root directory.
    fn root(&self) -> Result<VNode, FsError>;

    /// The node at `path`.
    fn lookup(&self, path: &str) -> Result<VNode, FsError>;

    /// Creates a node of kind `vtype` at `path`.
    fn create(&mut self, path: &str, vtype: VNodeType) -> Result<VNode, FsError>;

    /// Removes the node at `path`.
    fn remove(&mut self, path: &str) -> Result<(), FsError>;

    /// Reads from `offset` into `buffer`; returns the number of bytes read.
    fn read(&self, vnode: &VNode, offset: usize, buffer: &mut [u8]) -> Result<usize, FsError>;

    /// Writes `buffer` at `offset`; returns the number of bytes written.
    fn write(&mut self, vnode: &VNode, offset: usize, buffer: &[u8]) -> Result<usize, FsError>
        requires
            offset + buffer@.len() <= usize::MAX,
    ;

    /// The attributes of a node.
    fn stat(&self, vnode: &VNode) -> Result<VNodeAttr, FsError>;

    /// The entries of a directory.
    fn readdir(&self, vnode: &VNode) -> Result<Vec<DirEntry>, FsError>;

    /// Truncates or extends a file to `size` bytes.
    fn truncate(&mut self, vnode: &VNode, size: usize) -> Result<(), FsError>;
}

} // verus!
