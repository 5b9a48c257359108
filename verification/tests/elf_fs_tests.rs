use fanga::elf::loader::{load_elf, load_safe, ElfLoadError, LoadedElf};
use fanga::elf::parser::{ElfHeader, ElfProgramHeader, ProgramType, ELF_MAGIC};
use fanga::elf::program_flags;
use fanga::fs::file_descriptor::{FileDescriptor, FileDescriptorTable};
use fanga::fs::path::PathResolver;
use fanga::fs::vfs::{DirEntry, FsError, OpenFlags, SeekWhence, VNode, VNodeType};
use fanga::memory::addr::VirtAddr;

fn create_test_elf_header() -> [u8; 64] {
    let mut header = [0u8; 64];
    header[0..4].copy_from_slice(&[0x7f, b'E', b'L', b'F']);
    header[4] = 2;
    header[5] = 1;
    header[6] = 1;
    header[16] = 2;
    header[17] = 0;
    header[18] = 62;
    header[19] = 0;
    header[20] = 1;
    header[21] = 0;
    header[22] = 0;
    header[23] = 0;
    header[24..32].copy_from_slice(&0x400000u64.to_le_bytes());
    header[32..40].copy_from_slice(&0u64.to_le_bytes());
    header[40..48].copy_from_slice(&0u64.to_le_bytes());
    header[52] = 64;
    header[53] = 0;
    header[54] = 56;
    header[55] = 0;
    header[56] = 0;
    header[57] = 0;
    header
}

#[test]
fn test_load_elf_invalid_data() {
    let data = [0u8; 32];
    assert_eq!(load_elf(&data), Err(ElfLoadError::InvalidFormat));
}

#[test]
fn test_load_elf_no_segments() {
    let header = create_test_elf_header();
    assert_eq!(load_elf(&header), Err(ElfLoadError::UnsupportedType));
}

#[test]
fn test_loaded_elf_struct() {
    let loaded = LoadedElf {
        entry_point: VirtAddr::new(0x400000),
        load_start: VirtAddr::new(0x400000),
        load_end: VirtAddr::new(0x401000),
        interp: None,
    };

    assert_eq!(loaded.entry_point.as_u64(), 0x400000);
    assert_eq!(loaded.load_start.as_u64(), 0x400000);
    assert_eq!(loaded.load_end.as_u64(), 0x401000);
    assert!(loaded.interp.is_none());
}

#[test]
fn load_elf_with_one_load_segment() {
    let mut data = vec![0u8; 64 + 56];
    data[..64].copy_from_slice(&create_test_elf_header());
    // One program header right after the file header.
    data[32..40].copy_from_slice(&64u64.to_le_bytes());
    data[56] = 1;
    let ph = 64;
    data[ph..ph + 4].copy_from_slice(&1u32.to_le_bytes());
    data[ph + 4..ph + 8].copy_from_slice(&5u32.to_le_bytes());
    data[ph + 16..ph + 24].copy_from_slice(&0x400000u64.to_le_bytes());
    data[ph + 32..ph + 40].copy_from_slice(&0x10u64.to_le_bytes());
    data[ph + 40..ph + 48].copy_from_slice(&0x1800u64.to_le_bytes());
    let loaded = load_elf(&data).unwrap();
    assert_eq!(loaded.entry_point.as_u64(), 0x400000);
    assert_eq!(loaded.load_start.as_u64(), 0x400000);
    assert_eq!(loaded.load_end.as_u64(), 0x401800);
    assert!(loaded.interp.is_none());
}

#[test]
fn test_elf_magic() {
    assert_eq!(ELF_MAGIC, [0x7f, b'E', b'L', b'F']);
}

#[test]
fn test_elf_header_size() {
    assert_eq!(std::mem::size_of::<ElfHeader>(), 64);
}

#[test]
fn test_program_header_size() {
    assert_eq!(std::mem::size_of::<ElfProgramHeader>(), 56);
}

#[test]
fn test_program_type_from_u32() {
    assert_eq!(ProgramType::from_u32(0), Some(ProgramType::Null));
    assert_eq!(ProgramType::from_u32(1), Some(ProgramType::Load));
    assert_eq!(ProgramType::from_u32(2), Some(ProgramType::Dynamic));
    assert_eq!(ProgramType::from_u32(3), Some(ProgramType::Interp));
    assert_eq!(ProgramType::from_u32(999), None);
}

#[test]
fn test_program_flags() {
    let mut header = ElfProgramHeader {
        p_type: 1,
        p_flags: program_flags::PF_R | program_flags::PF_X,
        p_offset: 0,
        p_vaddr: 0,
        p_paddr: 0,
        p_filesz: 0,
        p_memsz: 0,
        p_align: 0,
    };

    assert!(header.is_readable());
    assert!(!header.is_writable());
    assert!(header.is_executable());

    header.p_flags = program_flags::PF_R | program_flags::PF_W;
    assert!(header.is_readable());
    assert!(header.is_writable());
    assert!(!header.is_executable());
}

#[test]
fn test_invalid_elf_header() {
    let data = [0u8; 64];
    assert!(ElfHeader::parse(&data).is_err());
}

#[test]
fn test_elf_header_too_small() {
    let data = [0u8; 32];
    assert!(ElfHeader::parse(&data).is_err());
}

#[test]
fn elf_header_parse_reads_fields() {
    let data = create_test_elf_header();
    let h = ElfHeader::parse(&data).unwrap();
    assert_eq!(h.e_type, 2);
    assert_eq!(h.e_machine, 62);
    assert_eq!(h.e_entry, 0x400000);
    assert_eq!(h.e_phentsize, 56);
    assert_eq!(h.validate(), Err("No program headers"));
}

fn test_vnode(id: u64) -> VNode {
    VNode::new(id, VNodeType::File, String::from("/test.txt"))
}

#[test]
fn test_file_descriptor_creation() {
    let vnode = test_vnode(1);
    let fd = FileDescriptor::new(vnode.clone(), OpenFlags::read_only());

    assert_eq!(fd.vnode.id, 1);
    assert_eq!(fd.offset, 0);
    assert!(fd.flags.read);
}

#[test]
fn test_seek_start() {
    let mut fd = FileDescriptor::new(test_vnode(1), OpenFlags::read_only());
    let offset = fd.seek(10, SeekWhence::Start, 100).unwrap();
    assert_eq!(offset, 10);
    assert_eq!(fd.offset, 10);
}

#[test]
fn test_seek_current() {
    let mut fd = FileDescriptor::new(test_vnode(1), OpenFlags::read_only());
    fd.offset = 10;
    let offset = fd.seek(5, SeekWhence::Current, 100).unwrap();
    assert_eq!(offset, 15);
    assert_eq!(fd.offset, 15);
}

#[test]
fn test_seek_end() {
    let mut fd = FileDescriptor::new(test_vnode(1), OpenFlags::read_only());
    let offset = fd.seek(-10, SeekWhence::End, 100).unwrap();
    assert_eq!(offset, 90);
    assert_eq!(fd.offset, 90);
}

#[test]
fn seek_before_start_is_refused() {
    let mut fd = FileDescriptor::new(test_vnode(1), OpenFlags::read_only());
    fd.offset = 3;
    assert!(fd.seek(-4, SeekWhence::Current, 100).is_err());
    assert_eq!(fd.offset, 3);
}

#[test]
fn test_fd_table_alloc() {
    let mut table = FileDescriptorTable::new();
    let fd = FileDescriptor::new(test_vnode(1), OpenFlags::read_only());
    let fd_num = table.allocate(fd).unwrap();
    assert_eq!(fd_num, 0);
    assert!(table.contains(fd_num));
}

#[test]
fn test_fd_table_get() {
    let mut table = FileDescriptorTable::new();
    let fd = FileDescriptor::new(test_vnode(1), OpenFlags::read_only());
    let fd_num = table.allocate(fd).unwrap();
    let retrieved = table.get(fd_num).unwrap();
    assert_eq!(retrieved.vnode.id, 1);
}

#[test]
fn test_fd_table_close() {
    let mut table = FileDescriptorTable::new();
    let fd = FileDescriptor::new(test_vnode(1), OpenFlags::read_only());
    let fd_num = table.allocate(fd).unwrap();
    assert!(table.contains(fd_num));
    table.close(fd_num).unwrap();
    assert!(!table.contains(fd_num));
}

#[test]
fn test_fd_table_multiple() {
    let mut table = FileDescriptorTable::new();
    for i in 0..5 {
        let fd = FileDescriptor::new(test_vnode(i), OpenFlags::read_only());
        table.allocate(fd).unwrap();
    }
    assert_eq!(table.count(), 5);
}

#[test]
fn fd_table_numbers_keep_increasing_after_close() {
    let mut table = FileDescriptorTable::new();
    for i in 0..3 {
        table.allocate(FileDescriptor::new(test_vnode(i), OpenFlags::read_only())).unwrap();
    }
    table.close(1).unwrap();
    assert!(table.close(1).is_err());
    let n = table.allocate(FileDescriptor::new(test_vnode(9), OpenFlags::read_only())).unwrap();
    assert_eq!(n, 3);
    assert_eq!(table.get(3).unwrap().vnode.id, 9);
    assert!(table.get(1).is_none());
}

#[test]
fn test_resolve_absolute() {
    let resolver = PathResolver::new();
    assert_eq!(resolver.resolve("/foo/bar").unwrap(), "/foo/bar");
}

#[test]
fn test_resolve_relative() {
    let resolver = PathResolver::with_cwd(String::from("/home/user"));
    assert_eq!(resolver.resolve("file.txt").unwrap(), "/home/user/file.txt");
}

#[test]
fn test_normalize_current_dir() {
    let resolver = PathResolver::new();
    assert_eq!(resolver.resolve("/foo/./bar").unwrap(), "/foo/bar");
}

#[test]
fn test_normalize_parent_dir() {
    let resolver = PathResolver::new();
    assert_eq!(resolver.resolve("/foo/bar/../baz").unwrap(), "/foo/baz");
}

#[test]
fn test_normalize_root() {
    let resolver = PathResolver::new();
    assert_eq!(resolver.resolve("/").unwrap(), "/");
    assert_eq!(resolver.resolve("/..").unwrap(), "/");
}

#[test]
fn test_parent() {
    assert_eq!(PathResolver::parent("/foo/bar").unwrap(), "/foo");
    assert_eq!(PathResolver::parent("/foo").unwrap(), "/");
    assert_eq!(PathResolver::parent("/"), None);
}

#[test]
fn test_filename() {
    assert_eq!(PathResolver::filename("/foo/bar"), Some("bar"));
    assert_eq!(PathResolver::filename("/foo"), Some("foo"));
    assert_eq!(PathResolver::filename("/"), None);
}

#[test]
fn test_join() {
    assert_eq!(PathResolver::join("/foo", "bar"), "/foo/bar");
    assert_eq!(PathResolver::join("/foo/", "bar"), "/foo/bar");
}

#[test]
fn resolve_rejects_empty_and_normalize_rejects_relative() {
    let resolver = PathResolver::new();
    assert_eq!(resolver.resolve(""), Err("Empty path"));
    assert!(PathResolver::normalize("foo/bar").is_err());
    assert_eq!(PathResolver::normalize("//a//b/../c/").unwrap(), "/a/c");
}

#[test]
fn test_vnode_creation() {
    let vnode = VNode::new(1, VNodeType::File, String::from("/test.txt"));
    assert_eq!(vnode.id, 1);
    assert_eq!(vnode.vtype, VNodeType::File);
    assert_eq!(vnode.path, "/test.txt");
}

#[test]
fn test_open_flags() {
    let read_only = OpenFlags::read_only();
    assert!(read_only.read);
    assert!(!read_only.write);

    let write_only = OpenFlags::write_only();
    assert!(!write_only.read);
    assert!(write_only.write);

    let read_write = OpenFlags::read_write();
    assert!(read_write.read);
    assert!(read_write.write);

    let create_new = OpenFlags::create_new();
    assert!(create_new.write);
    assert!(create_new.create);
    assert!(create_new.truncate);
}

#[test]
fn test_dir_entry() {
    let entry = DirEntry::new(String::from("test.txt"), VNodeType::File);
    assert_eq!(entry.name, "test.txt");
    assert_eq!(entry.vtype, VNodeType::File);
}

#[test]
fn fs_error_messages() {
    assert_eq!(FsError::NotFound.message(), "File or directory not found");
    assert_eq!(FsError::DirectoryNotEmpty.message(), "Directory not empty");
}

#[test]
fn normalize_twice_is_normalize_once() {
    for p in ["//a/./b/../c/", "/..", "/x/y/../../z", "/"] {
        let once = PathResolver::normalize(p).unwrap();
        let twice = PathResolver::normalize(&once).unwrap();
        assert_eq!(once, twice);
    }
}

#[test]
fn normalized_paths_have_normal_shape() {
    let n = PathResolver::normalize("//usr/./local//../bin/").unwrap();
    assert_eq!(n, "/usr/bin");
    assert!(!n.contains("//"));
    assert!(!n.ends_with('/'));
    assert!(n.split('/').all(|c| c != "." && c != ".."));
    assert_eq!(PathResolver::normalize("/..").unwrap(), "/");
}

#[test]
fn join_of_parent_and_filename_gives_path_back() {
    for p in ["/a", "/usr/bin", "/x/y/z"] {
        let parent = PathResolver::parent(p).unwrap();
        let name = PathResolver::filename(p).unwrap();
        assert_eq!(PathResolver::join(&parent, name), p);
    }
}

#[test]
fn load_safe_accepts_plain_files_and_refuses_overflowing_ones() {
    assert!(load_safe(&[0u8; 32]));
    assert!(load_safe(&create_test_elf_header()));
    let mut data = vec![0u8; 64 + 56];
    data[..64].copy_from_slice(&create_test_elf_header());
    data[32..40].copy_from_slice(&64u64.to_le_bytes());
    data[56] = 1;
    let ph = 64;
    data[ph..ph + 4].copy_from_slice(&1u32.to_le_bytes());
    data[ph + 16..ph + 24].copy_from_slice(&0x400000u64.to_le_bytes());
    data[ph + 32..ph + 40].copy_from_slice(&0x10u64.to_le_bytes());
    data[ph + 40..ph + 48].copy_from_slice(&0x1800u64.to_le_bytes());
    assert!(load_safe(&data));
    // A segment whose end address does not fit in 64 bits.
    let mut wrap = data.clone();
    wrap[ph + 16..ph + 24].copy_from_slice(&(u64::MAX - 0x10).to_le_bytes());
    assert!(!load_safe(&wrap));
    // A program header table placed at the very top of the address space.
    let mut far = data.clone();
    far[32..40].copy_from_slice(&(u64::MAX - 8).to_le_bytes());
    assert!(!load_safe(&far));
}
