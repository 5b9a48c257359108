//! FangaOS kernel logic: memory management, file system helpers, networking
//! protocols, input handling and x86_64 architecture data structures, with
//! their behaviour stated as contracts.

pub mod memory;
pub mod memory_regions;
pub mod elf;
pub mod btree_util;
pub mod fs;
pub mod net;
pub mod io;
pub mod arch;
pub mod boot;
