//! Parsing of ELF64 headers from little-endian bytes.

use vstd::prelude::*;

verus! {

/// The four bytes every ELF file starts with.
pub const ELF_MAGIC: [u8; 4] = [0x7fu8, 0x45u8, 0x4cu8, 0x46u8];

/// Size of an ELF64 file header in bytes.
pub const ELF_HEADER_SIZE: usize = 64;

/// Size of an ELF64 program header in bytes.
pub const PROGRAM_HEADER_SIZE: usize = 56;

/// ELF class (word size).
#[derive(Debug, Clone, Copy, PartialEq, Eq, Structural)]
pub enum ElfClass {
    /// No class (`None` in the ELF specification).
    NoClass,
    Elf32,
    Elf64,
}

/// ELF data encoding.
#[derive(Debug, Clone, Copy, PartialEq, Eq, Structural)]
pub enum ElfData {
    /// No encoding.
    NoData,
    Little,
    Big,
}

/// ELF object file type.
#[derive(Debug, Clone, Copy, PartialEq, Eq, Structural)]
pub enum ElfType {
    /// No file type.
    NoType,
    Relocatable,
    Executable,
    Shared,
    Core,
}

/// ELF machine architecture.
#[derive(Debug, Clone, Copy, PartialEq, Eq, Structural)]
pub enum ElfMachine {
    /// No machine.
    NoMachine,
    X86,
    X86_64,
    Arm,
    Aarch64,
}

/// Program header type.
#[derive(Debug, Clone, Copy, PartialEq, Eq, Structural)]
pub enum ProgramType {
    Null,
    Load,
    Dynamic,
    Interp,
    Note,
    Shlib,
    Phdr,
    Tls,
    GnuStack,
}

/// The program type a raw value stands for.
pub open spec fn spec_program_type(value: u32) -> Option<ProgramType> {
    if value == 0 {
        Some(ProgramType::Null)
    } else if value == 1 {
        Some(ProgramType::Load)
    } else if value == 2 {
        Some(ProgramType::Dynamic)
    } else if value == 3 {
        Some(ProgramType::Interp)
    } else if value == 4 {
        Some(ProgramType::Note)
    } else if value == 5 {
        Some(ProgramType::Shlib)
    } else if value == 6 {
        Some(ProgramType::Phdr)
    } else if value == 7 {
        Some(ProgramType::Tls)
    } else if value == 0x6474e551 {
        Some(ProgramType::GnuStack)
    } else {
        None
    }
}

impl ProgramType {
    /// The program type a raw value stands for.
    pub fn from_u32(value: u32) -> (r: Option<Self>)
        ensures
            r == spec_program_type(value),
    {
        match value {
            0 => Some(ProgramType::Null),
            1 => Some(ProgramType::Load),
            2 => Some(ProgramType::Dynamic),
            3 => Some(ProgramType::Interp),
            4 => Some(ProgramType::Note),
            5 => Some(ProgramType::Shlib),
            6 => Some(ProgramType::Phdr),
            7 => Some(ProgramType::Tls),
            0x6474e551 => Some(ProgramType::GnuStack),
            _ => None,
        }
    }
}

/// Little-endian 16-bit value at `off`.
#[verifier::opaque]
pub open spec fn spec_le_u16(d: Seq<u8>, off: int) -> int {
    d[off] + 256 * d[off + 1]
}

/// Little-endian 32-bit value at `off`.
#[verifier::opaque]
pub open spec fn spec_le_u32(d: Seq<u8>, off: int) -> int {
    spec_le_u16(d, off) + 0x1_0000 * spec_le_u16(d, off + 2)
}

/// Little-endian 64-bit value at `off`.
#[verifier::opaque]
pub open spec fn spec_le_u64(d: Seq<u8>, off: int) -> int {
    spec_le_u32(d, off) + 0x1_0000_0000 * spec_le_u32(d, off + 4)
}

/// Reads a little-endian `u16` at `off`.
pub fn read_u16_le(d: &[u8], off: usize) -> (r: u16)
    requires
        off + 2 <= d@.len(),
    ensures
        r == spec_le_u16(d@, off as int),
{
    reveal(spec_le_u16);
    d[off] as u16 + 256 * (d[off + 1] as u16)
}

/// Reads a little-endian `u32` at `off`.
pub fn read_u32_le(d: &[u8], off: usize) -> (r: u32)
    requires
        off + 4 <= d@.len(),
    ensures
        r == spec_le_u32(d@, off as int),
{
    reveal(spec_le_u32);
    let _n = d.len();
    let lo = read_u16_le(d, off) as u32;
    let hi = read_u16_le(d, off + 2) as u32;
    lo + 0x1_0000 * hi
}

/// Reads a little-endian `u64` at `off`.
pub fn read_u64_le(d: &[u8], off: usize) -> (r: u64)
    requires
        off + 8 <= d@.len(),
    ensures
        r == spec_le_u64(d@, off as int),
{
    reveal(spec_le_u64);
    let _n = d.len();
    let lo = read_u32_le(d, off) as u64;
    let hi = read_u32_le(d, off + 4) as u64;
    lo + 0x1_0000_0000 * hi
}

/// ELF64 file header.
#[derive(Debug, Clone, Copy)]
pub struct ElfHeader {
    /// Identification bytes.
    pub e_ident: [u8; 16],
    /// Object file type.
    pub e_type: u16,
    /// Machine architecture.
    pub e_machine: u16,
    /// Object file version.
    pub e_version: u32,
    /// Entry point.
    pub e_entry: u64,
    /// Program header table offset.
    pub e_phoff: u64,
    /// Section header table offset.
    pub e_shoff: u64,
    /// Processor flags.
    pub e_flags: u32,
    /// Header size.
    pub e_ehsize: u16,
    /// Program header entry size.
    pub e_phentsize: u16,
    /// Program header count.
    pub e_phnum: u16,
    /// Section header entry size.
    pub e_shentsize: u16,
    /// Section header count.
    pub e_shnum: u16,
    /// Section name string table index.
    pub e_shstrndx: u16,
}

/// Whether `h` holds the fields of the header encoded at the start of `d`.
pub open spec fn spec_header_of(h: ElfHeader, d: Seq<u8>) -> bool {
    &&& h.e_ident@ == d.subrange(0, 16)
    &&& h.e_type == spec_le_u16(d, 16)
    &&& h.e_machine == spec_le_u16(d, 18)
    &&& h.e_version == spec_le_u32(d, 20)
    &&& h.e_entry == spec_le_u64(d, 24)
    &&& h.e_phoff == spec_le_u64(d, 32)
    &&& h.e_shoff == spec_le_u64(d, 40)
    &&& h.e_flags == spec_le_u32(d, 48)
    &&& h.e_ehsize == spec_le_u16(d, 52)
    &&& h.e_phentsize == spec_le_u16(d, 54)
    &&& h.e_phnum == spec_le_u16(d, 56)
    &&& h.e_shentsize == spec_le_u16(d, 58)
    &&& h.e_shnum == spec_le_u16(d, 60)
    &&& h.e_shstrndx == spec_le_u16(d, 62)
}

/// Whether the identification bytes are those of a little-endian ELF64
/// file of version 1.
pub open spec fn spec_ident_ok(d: Seq<u8>) -> bool {
    &&& d[0] == 0x7f && d[1] == 0x45 && d[2] == 0x4c && d[3] == 0x46
    &&& d[4] == 2
    &&& d[5] == 1
    &&& d[6] == 1
}

/// The object file type of a raw value.
pub open spec fn spec_elf_type(v: u16) -> Option<ElfType> {
    if v == 1 {
        Some(ElfType::Relocatable)
    } else if v == 2 {
        Some(ElfType::Executable)
    } else if v == 3 {
        Some(ElfType::Shared)
    } else if v == 4 {
        Some(ElfType::Core)
    } else {
        None
    }
}

/// The machine of a raw value.
pub open spec fn spec_machine(v: u16) -> Option<ElfMachine> {
    if v == 3 {
        Some(ElfMachine::X86)
    } else if v == 62 {
        Some(ElfMachine::X86_64)
    } else if v == 40 {
        Some(ElfMachine::Arm)
    } else if v == 183 {
        Some(ElfMachine::Aarch64)
    } else {
        None
    }
}

/// Whether a header describes an x86_64 executable or shared object with
/// program headers.
pub open spec fn spec_header_valid(h: ElfHeader) -> bool {
    (h.e_type == 2 || h.e_type == 3) && h.e_machine == 62 && h.e_phnum != 0
}

impl ElfHeader {
    /// Parses the header at the start of `data`. Fails when fewer than 64
    /// bytes are given, on a wrong magic, and when the file is not a
    /// little-endian ELF64 file of version 1 (checked in that order).
    pub fn parse(data: &[u8]) -> (r: Result<Self, &'static str>)
        ensures
            data@.len() < 64 ==> r == Err::<ElfHeader, &'static str>("Data too small for ELF header"),
            data@.len() >= 64 ==> match r {
                Ok(h) => spec_ident_ok(data@) && spec_header_of(h, data@),
                Err(e) => !spec_ident_ok(data@) && (
                    if !(data@[0] == 0x7f && data@[1] == 0x45 && data@[2] == 0x4c && data@[3] == 0x46) {
                        e == "Invalid ELF magic"
                    } else if data@[4] != 2 {
                        e == "Not a 64-bit ELF"
                    } else if data@[5] != 1 {
                        e == "Not little-endian"
                    } else {
                        e == "Invalid ELF version"
                    }),
            },
    {
        if data.len() < ELF_HEADER_SIZE {
            return Err("Data too small for ELF header");
        }
        let e_ident: [u8; 16] = [
            data[0], data[1], data[2], data[3], data[4], data[5], data[6], data[7],
            data[8], data[9], data[10], data[11], data[12], data[13], data[14], data[15],
        ];
        assert(e_ident@ =~= data@.subrange(0, 16));
        let header = ElfHeader {
            e_ident,
            e_type: read_u16_le(data, 16),
            e_machine: read_u16_le(data, 18),
            e_version: read_u32_le(data, 20),
            e_entry: read_u64_le(data, 24),
            e_phoff: read_u64_le(data, 32),
            e_shoff: read_u64_le(data, 40),
            e_flags: read_u32_le(data, 48),
            e_ehsize: read_u16_le(data, 52),
            e_phentsize: read_u16_le(data, 54),
            e_phnum: read_u16_le(data, 56),
            e_shentsize: read_u16_le(data, 58),
            e_shnum: read_u16_le(data, 60),
            e_shstrndx: read_u16_le(data, 62),
        };
        if header.e_ident[0] != ELF_MAGIC[0] || header.e_ident[1] != ELF_MAGIC[1] || header.e_ident[2] != ELF_MAGIC[2]
            || header.e_ident[3] != ELF_MAGIC[3] {
            return Err("Invalid ELF magic");
        }
        if header.e_ident[4] != 2 {
            return Err("Not a 64-bit ELF");
        }
        if header.e_ident[5] != 1 {
            return Err("Not little-endian");
        }
        if header.e_ident[6] != 1 {
            return Err("Invalid ELF version");
        }
        Ok(header)
    }

    /// The object file type.
    pub fn elf_type(&self) -> (r: Option<ElfType>)
        ensures
            r == spec_elf_type(self.e_type),
    {
        match self.e_type {
            1 => Some(ElfType::Relocatable),
            2 => Some(ElfType::Executable),
            3 => Some(ElfType::Shared),
            4 => Some(ElfType::Core),
            _ => None,
        }
    }

    /// The machine architecture.
    pub fn machine(&self) -> (r: Option<ElfMachine>)
        ensures
            r == spec_machine(self.e_machine),
    {
        match self.e_machine {
            3 => Some(ElfMachine::X86),
            62 => Some(ElfMachine::X86_64),
            40 => Some(ElfMachine::Arm),
            183 => Some(ElfMachine::Aarch64),
            _ => None,
        }
    }

    /// Checks that the file can be run here: an executable or shared
    /// object, for x86_64, with program headers (checked in that order).
    pub fn validate(&self) -> (r: Result<(), &'static str>)
        ensures
            r is Ok <==> spec_header_valid(*self),
            !(self.e_type == 2 || self.e_type == 3) ==> r == Err::<(), &'static str>("ELF must be executable or shared object"),
            (self.e_type == 2 || self.e_type == 3) && self.e_machine != 62 ==> r == Err::<(), &'static str>("ELF must be x86_64"),
            (self.e_type == 2 || self.e_type == 3) && self.e_machine == 62 && self.e_phnum == 0 ==> r == Err::<(), &'static str>(
                "No program headers",
            ),
    {
        match self.elf_type() {
            Some(ElfType::Executable) | Some(ElfType::Shared) => {},
            _ => return Err("ELF must be executable or shared object"),
        }
        match self.machine() {
            Some(ElfMachine::X86_64) => {},
            _ => return Err("ELF must be x86_64"),
        }
        if self.e_phnum == 0 {
            return Err("No program headers");
        }
        Ok(())
    }
}

/// ELF64 program header.
#[derive(Debug, Clone, Copy)]
pub struct ElfProgramHeader {
    /// Segment type.
    pub p_type: u32,
    /// Segment flags.
    pub p_flags: u32,
    /// Offset in the file.
    pub p_offset: u64,
    /// Virtual address.
    pub p_vaddr: u64,
    /// Physical address.
    pub p_paddr: u64,
    /// Size in the file.
    pub p_filesz: u64,
    /// Size in memory.
    pub p_memsz: u64,
    /// Alignment.
    pub p_align: u64,
}

/// Whether `h` holds the fields of the program header encoded at `off`.
pub open spec fn spec_program_header_of(h: ElfProgramHeader, d: Seq<u8>, off: int) -> bool {
    &&& h.p_type == spec_le_u32(d, off)
    &&& h.p_flags == spec_le_u32(d, off + 4)
    &&& h.p_offset == spec_le_u64(d, off + 8)
    &&& h.p_vaddr == spec_le_u64(d, off + 16)
    &&& h.p_paddr == spec_le_u64(d, off + 24)
    &&& h.p_filesz == spec_le_u64(d, off + 32)
    &&& h.p_memsz == spec_le_u64(d, off + 40)
    &&& h.p_align == spec_le_u64(d, off + 48)
}

impl ElfProgramHeader {
    /// Parses the program header at the start of `data`; fails when fewer
    /// than 56 bytes are given.
    pub fn parse(data: &[u8]) -> (r: Result<Self, &'static str>)
        ensures
            data@.len() < 56 ==> r == Err::<ElfProgramHeader, &'static str>("Data too small for program header"),
            data@.len() >= 56 ==> (r matches Ok(h) && spec_program_header_of(h, data@, 0)),
    {
        Self::parse_at(data, 0)
    }

    /// Parses the program header at `off` in `data`.
    pub fn parse_at(data: &[u8], off: usize) -> (r: Result<Self, &'static str>)
        ensures
            off + 56 > data@.len() ==> r == Err::<ElfProgramHeader, &'static str>("Data too small for program header"),
            off + 56 <= data@.len() ==> (r matches Ok(h) && spec_program_header_of(h, data@, off as int)),
    {
        if data.len() < PROGRAM_HEADER_SIZE || off > data.len() - PROGRAM_HEADER_SIZE {
            return Err("Data too small for program header");
        }
        Ok(ElfProgramHeader {
            p_type: read_u32_le(data, off),
            p_flags: read_u32_le(data, off + 4),
            p_offset: read_u64_le(data, off + 8),
            p_vaddr: read_u64_le(data, off + 16),
            p_paddr: read_u64_le(data, off + 24),
            p_filesz: read_u64_le(data, off + 32),
            p_memsz: read_u64_le(data, off + 40),
            p_align: read_u64_le(data, off + 48),
        })
    }

    /// The segment type.
    pub fn program_type(&self) -> (r: Option<ProgramType>)
        ensures
            r == spec_program_type(self.p_type),
    {
        ProgramType::from_u32(self.p_type)
    }

    /// Whether the segment is executable.
    pub fn is_executable(&self) -> (r: bool)
        ensures
            r == (self.p_flags & 1 != 0),
    {
        (self.p_flags & super::program_flags::PF_X) != 0
    }

    /// Whether the segment is writable.
    pub fn is_writable(&self) -> (r: bool)
        ensures
            r == (self.p_flags & 2 != 0),
    {
        (self.p_flags & super::program_flags::PF_W) != 0
    }

    /// Whether the segment is readable.
    pub fn is_readable(&self) -> (r: bool)
        ensures
            r == (self.p_flags & 4 != 0),
    {
        (self.p_flags & super::program_flags::PF_R) != 0
    }
}

} // verus!
