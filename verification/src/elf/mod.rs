//! ELF64 executables: header and program header parsing, validation and
//! the loading plan of the loadable segments.

pub mod parser;
pub mod program_flags;
pub mod loader;

pub use parser::{ElfHeader, ElfMachine, ElfProgramHeader, ElfType, ProgramType};
pub use loader::{load_elf, ElfLoadError, LoadedElf};
