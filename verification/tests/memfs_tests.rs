use fanga::fs::memfs::MemoryFileSystem;
use fanga::fs::vfs::{FileSystem, FsError, VNodeType};

#[test]
fn test_memfs_creation() {
    let fs = MemoryFileSystem::new();
    let root = fs.root().unwrap();

    assert_eq!(root.id, 0);
    assert_eq!(root.vtype, VNodeType::Directory);
    assert_eq!(root.path, "/");
}

#[test]
fn test_create_file() {
    let mut fs = MemoryFileSystem::new();
    let vnode = fs.create("/test.txt", VNodeType::File).unwrap();

    assert_eq!(vnode.vtype, VNodeType::File);
    assert_eq!(vnode.path, "/test.txt");
}

#[test]
fn test_create_directory() {
    let mut fs = MemoryFileSystem::new();
    let vnode = fs.create("/testdir", VNodeType::Directory).unwrap();

    assert_eq!(vnode.vtype, VNodeType::Directory);
    assert_eq!(vnode.path, "/testdir");
}

#[test]
fn test_lookup() {
    let mut fs = MemoryFileSystem::new();
    fs.create("/test.txt", VNodeType::File).unwrap();

    let vnode = fs.lookup("/test.txt").unwrap();
    assert_eq!(vnode.path, "/test.txt");
}

#[test]
fn test_write_read() {
    let mut fs = MemoryFileSystem::new();
    let vnode = fs.create("/test.txt", VNodeType::File).unwrap();

    let data = b"Hello, World!";
    let written = fs.write(&vnode, 0, data).unwrap();
    assert_eq!(written, data.len());

    let mut buffer = vec![0u8; data.len()];
    let read = fs.read(&vnode, 0, &mut buffer).unwrap();
    assert_eq!(read, data.len());
    assert_eq!(&buffer, data);
}

#[test]
fn test_stat() {
    let mut fs = MemoryFileSystem::new();
    let vnode = fs.create("/test.txt", VNodeType::File).unwrap();

    let data = b"Hello!";
    fs.write(&vnode, 0, data).unwrap();

    let attr = fs.stat(&vnode).unwrap();
    assert_eq!(attr.size, data.len());
    assert_eq!(attr.vtype, VNodeType::File);
}

#[test]
fn test_remove_file() {
    let mut fs = MemoryFileSystem::new();
    fs.create("/test.txt", VNodeType::File).unwrap();

    fs.remove("/test.txt").unwrap();
    assert!(fs.lookup("/test.txt").is_err());
}

#[test]
fn test_remove_empty_directory() {
    let mut fs = MemoryFileSystem::new();
    fs.create("/testdir", VNodeType::Directory).unwrap();

    fs.remove("/testdir").unwrap();
    assert!(fs.lookup("/testdir").is_err());
}

#[test]
fn test_readdir() {
    let mut fs = MemoryFileSystem::new();
    fs.create("/file1.txt", VNodeType::File).unwrap();
    fs.create("/file2.txt", VNodeType::File).unwrap();
    fs.create("/dir1", VNodeType::Directory).unwrap();

    let root = fs.root().unwrap();
    let entries = fs.readdir(&root).unwrap();

    assert_eq!(entries.len(), 3);
}

#[test]
fn test_nested_create() {
    let mut fs = MemoryFileSystem::new();
    fs.create("/dir1", VNodeType::Directory).unwrap();
    let vnode = fs.create("/dir1/file.txt", VNodeType::File).unwrap();

    assert_eq!(vnode.path, "/dir1/file.txt");
}

#[test]
fn test_truncate() {
    let mut fs = MemoryFileSystem::new();
    let vnode = fs.create("/test.txt", VNodeType::File).unwrap();

    let data = b"Hello, World!";
    fs.write(&vnode, 0, data).unwrap();

    fs.truncate(&vnode, 5).unwrap();

    let attr = fs.stat(&vnode).unwrap();
    assert_eq!(attr.size, 5);
}

#[test]
fn memfs_readdir_lists_names_in_order() {
    let mut fs = MemoryFileSystem::new();
    fs.create("/b", VNodeType::File).unwrap();
    fs.create("/a", VNodeType::Directory).unwrap();
    fs.create("/c", VNodeType::File).unwrap();
    let root = fs.root().unwrap();
    let names: Vec<String> = fs.readdir(&root).unwrap().into_iter().map(|e| e.name).collect();
    assert_eq!(names, vec!["a", "b", "c"]);
}

#[test]
fn memfs_errors() {
    let mut fs = MemoryFileSystem::new();
    assert_eq!(fs.create("relative", VNodeType::File).unwrap_err(), FsError::InvalidPath);
    assert_eq!(fs.create("/missing/file", VNodeType::File).unwrap_err(), FsError::NotFound);
    let f = fs.create("/f", VNodeType::File).unwrap();
    assert_eq!(fs.create("/f", VNodeType::File).unwrap_err(), FsError::AlreadyExists);
    assert_eq!(fs.create("/f/g", VNodeType::File).unwrap_err(), FsError::NotADirectory);
    assert_eq!(fs.readdir(&f).unwrap_err(), FsError::NotADirectory);
    let d = fs.create("/d", VNodeType::Directory).unwrap();
    fs.create("/d/x", VNodeType::File).unwrap();
    assert_eq!(fs.remove("/d").unwrap_err(), FsError::DirectoryNotEmpty);
    assert_eq!(fs.remove("/").unwrap_err(), FsError::InvalidArgument);
    let mut buf = [0u8; 4];
    assert_eq!(fs.read(&d, 0, &mut buf).unwrap_err(), FsError::IsADirectory);
    assert_eq!(fs.lookup("/nope").unwrap_err(), FsError::NotFound);
}

#[test]
fn memfs_write_past_end_zero_fills_and_partial_read() {
    let mut fs = MemoryFileSystem::new();
    let f = fs.create("/f", VNodeType::File).unwrap();
    fs.write(&f, 3, &[7, 8]).unwrap();
    let mut buf = [9u8; 8];
    assert_eq!(fs.read(&f, 0, &mut buf).unwrap(), 5);
    assert_eq!(buf, [0, 0, 0, 7, 8, 9, 9, 9]);
    assert_eq!(fs.read(&f, 10, &mut buf).unwrap(), 0);
    fs.truncate(&f, 7).unwrap();
    assert_eq!(fs.stat(&f).unwrap().size, 7);
    let found = fs.lookup("/./f").unwrap();
    assert_eq!(found.id, f.id);
}
