//! File system layer: VFS types, path resolution and per-process file
//! descriptor tables.

pub mod vfs;
pub mod path;
pub mod file_descriptor;
pub mod memfs;

pub use vfs::{FileSystem, OpenFlags, SeekWhence, VNode, VNodeType};
pub use file_descriptor::{FileDescriptor, FileDescriptorTable};
pub use path::PathResolver;
