//! Loading plan of an ELF executable: the address range its loadable
//! segments cover, its entry point and its interpreter.

use vstd::prelude::*;
use super::parser::{
    read_u32_le, read_u64_le, spec_header_of, spec_header_valid, spec_ident_ok, spec_le_u32, spec_le_u64,
    spec_program_header_of, spec_program_type, ElfHeader, ElfProgramHeader, ProgramType, PROGRAM_HEADER_SIZE,
};
use crate::memory::addr::VirtAddr;

verus! {

/// Why an ELF file cannot be loaded.
#[derive(Debug, Clone, Copy, PartialEq, Eq, Structural)]
pub enum ElfLoadError {
    /// Malformed file.
    InvalidFormat,
    /// Not an x86_64 executable or shared object with program headers.
    UnsupportedType,
    /// Out of memory.
    OutOfMemory,
    /// Invalid address.
    InvalidAddress,
    /// Mapping failed.
    MappingFailed,
}

/// Where a loaded ELF file lives.
#[derive(Debug, Clone, Copy, PartialEq, Eq, Structural)]
pub struct LoadedElf {
    /// Entry point.
    pub entry_point: VirtAddr,
    /// Lowest address of the loadable segments.
    pub load_start: VirtAddr,
    /// Highest end address of the loadable segments.
    pub load_end: VirtAddr,
    /// Address of the interpreter path, if the file names one.
    pub interp: Option<VirtAddr>,
}

/// Offset of the `i`-th program header.
pub open spec fn spec_ph_offset(d: Seq<u8>, i: int) -> int {
    spec_le_u64(d, 32) + i * (d[54] + 256 * d[55])
}

/// Whether the loadable segment at `off` lies within the file and its
/// file size does not exceed its memory size.
pub open spec fn spec_segment_ok(d: Seq<u8>, off: int) -> bool {
    spec_le_u64(d, off + 32) <= spec_le_u64(d, off + 40) && spec_le_u64(d, off + 8) + spec_le_u64(d, off + 32) <= d.len()
}

/// The lowest start, highest end and interpreter address after scanning
/// the first `n` program headers, or the error that stops the scan.
pub open spec fn spec_scan(d: Seq<u8>, n: int) -> Result<(u64, u64, Option<u64>), ElfLoadError>
    decreases n,
{
    if n <= 0 {
        Ok((u64::MAX, 0u64, None))
    } else {
        match spec_scan(d, n - 1) {
            Err(e) => Err(e),
            Ok((s, e, it)) => {
                let off = spec_ph_offset(d, n - 1);
                if off + 56 > d.len() {
                    Err(ElfLoadError::InvalidFormat)
                } else {
                    let t = spec_program_type(spec_le_u32(d, off) as u32);
                    let vaddr = spec_le_u64(d, off + 16);
                    let memsz = spec_le_u64(d, off + 40);
                    if t == Some(ProgramType::Load) {
                        if !spec_segment_ok(d, off) {
                            Err(ElfLoadError::InvalidFormat)
                        } else {
                            Ok((
                                if vaddr < s { vaddr as u64 } else { s },
                                if vaddr + memsz > e { (vaddr + memsz) as u64 } else { e },
                                it,
                            ))
                        }
                    } else if t == Some(ProgramType::Interp) {
                        Ok((s, e, Some(vaddr as u64)))
                    } else {
                        Ok((s, e, it))
                    }
                }
            },
        }
    }
}

/// Whether scanning the first `n` program headers stays within the machine's
/// integer ranges.
pub open spec fn spec_scan_safe(d: Seq<u8>, n: int) -> bool
    decreases n,
{
    if n <= 0 {
        true
    } else {
        &&& spec_scan_safe(d, n - 1)
        &&& spec_scan(d, n - 1) is Ok ==> {
            let off = spec_ph_offset(d, n - 1);
            &&& off + 56 <= usize::MAX
            &&& off + 56 <= d.len() && spec_program_type(spec_le_u32(d, off) as u32) == Some(ProgramType::Load)
                && spec_le_u64(d, off + 32) <= spec_le_u64(d, off + 40) ==> {
                &&& spec_le_u64(d, off + 8) + spec_le_u64(d, off + 32) <= usize::MAX
                &&& spec_segment_ok(d, off) ==> spec_le_u64(d, off + 16) + spec_le_u64(d, off + 40) <= u64::MAX
            }
        }
    }
}

/// What `load_elf` needs of its input: the header, when it is valid,
/// leads to a scan without integer overflow.
pub open spec fn spec_load_safe(d: Seq<u8>) -> bool {
    d.len() >= 64 && spec_ident_ok(d) && (d[16] + 256 * d[17] == 2 || d[16] + 256 * d[17] == 3) && d[18] + 256
        * d[19] == 62 && d[56] + 256 * d[57] != 0 ==> spec_scan_safe(d, d[56] + 256 * d[57])
}

/// Checks a loadable segment: its file size may not exceed its memory size
/// and its file range must lie within the file.
fn load_segment(phdr: &ElfProgramHeader, data: &[u8]) -> (r: Result<(), ElfLoadError>)
    requires
        phdr.p_filesz <= phdr.p_memsz ==> phdr.p_offset + phdr.p_filesz <= usize::MAX,
    ensures
        r is Ok <==> (phdr.p_filesz <= phdr.p_memsz && phdr.p_offset + phdr.p_filesz <= data@.len()),
        r is Err ==> r == Err::<(), ElfLoadError>(ElfLoadError::InvalidFormat),
{
    if phdr.p_filesz > phdr.p_memsz {
        return Err(ElfLoadError::InvalidFormat);
    }
    let offset = phdr.p_offset as usize;
    let filesz = phdr.p_filesz as usize;
    if offset + filesz > data.len() {
        return Err(ElfLoadError::InvalidFormat);
    }
    Ok(())
}

/// Parses and validates an ELF file and scans its program headers: the
/// loadable segments give the address range, an interpreter header its
/// address. A file that does not parse, or whose program headers or
/// segments leave the file, is malformed; a valid header of the wrong kind
/// is unsupported; a file without a loadable segment below the top address
/// is malformed.
pub fn load_elf(data: &[u8]) -> (r: Result<LoadedElf, ElfLoadError>)
    requires
        data@.len() + 0x1_0040 <= usize::MAX,
        spec_load_safe(data@),
    ensures
        ({
            let d = data@;
            if !(d.len() >= 64 && spec_ident_ok(d)) {
                r == Err::<LoadedElf, ElfLoadError>(ElfLoadError::InvalidFormat)
            } else if !((d[16] + 256 * d[17] == 2 || d[16] + 256 * d[17] == 3) && d[18] + 256 * d[19] == 62 && d[56]
                + 256 * d[57] != 0) {
                r == Err::<LoadedElf, ElfLoadError>(ElfLoadError::UnsupportedType)
            } else {
                match spec_scan(d, d[56] + 256 * d[57]) {
                    Err(e) => r == Err::<LoadedElf, ElfLoadError>(e),
                    Ok((s, e, it)) => if s == u64::MAX {
                        r == Err::<LoadedElf, ElfLoadError>(ElfLoadError::InvalidFormat)
                    } else {
                        r matches Ok(l) && l.entry_point@ == spec_le_u64(d, 24) && l.load_start@ == s
                            && l.load_end@ == e && match it {
                            Some(a) => l.interp matches Some(ia) && ia@ == a,
                            None => l.interp is None,
                        }
                    },
                }
            }
        }),
{
    let header = match ElfHeader::parse(data) {
        Ok(h) => h,
        Err(_) => return Err(ElfLoadError::InvalidFormat),
    };
    proof {
        reveal(super::parser::spec_le_u16);
    }
    match header.validate() {
        Ok(()) => {},
        Err(_) => return Err(ElfLoadError::UnsupportedType),
    }
    let ghost d = data@;
    proof {
        reveal(super::parser::spec_le_u16);
        lemma_scan_safe_prefix(d, header.e_phnum as int, 1);
        assert(spec_scan(d, 0) is Ok);
        assert(spec_ph_offset(d, 0) == header.e_phoff);
    }
    let mut load_start = VirtAddr::new(u64::MAX);
    let mut load_end = VirtAddr::new(0);
    let mut interp: Option<VirtAddr> = None;
    let phoff = header.e_phoff as usize;
    let phentsize = header.e_phentsize as usize;
    let phnum = header.e_phnum as usize;
    let mut i: usize = 0;
    while i < phnum
        invariant
            d == data@,
            spec_header_of(header, d),
            spec_header_valid(header),
            phnum == header.e_phnum,
            phentsize == header.e_phentsize,
            phoff == header.e_phoff,
            d.len() + 0x1_0040 <= usize::MAX,
            spec_scan_safe(d, phnum as int),
            0 <= i <= phnum,
            spec_scan(d, i as int) matches Ok((s, e, it)) && load_start@ == s && load_end@ == e && match it {
                Some(a) => interp matches Some(ia) && ia@ == a,
                None => interp is None,
            },
            i > 0 ==> spec_ph_offset(d, i - 1) + 56 <= d.len(),
        decreases phnum - i,
    {
        proof {
            reveal(super::parser::spec_le_u16);
            lemma_scan_safe_prefix(d, phnum as int, i as int + 1);
            assert(spec_ph_offset(d, i as int) == phoff + i * phentsize);
            if i > 0 {
                assert(phoff + i * phentsize == spec_ph_offset(d, i - 1) + phentsize) by (nonlinear_arith)
                    requires spec_ph_offset(d, i - 1) == phoff + (i - 1) * phentsize;
            }
        }
        let offset = phoff + i * phentsize;
        if offset + PROGRAM_HEADER_SIZE > data.len() {
            proof {
                lemma_scan_err_propagates(d, i as int + 1, phnum as int);
            }
            return Err(ElfLoadError::InvalidFormat);
        }
        let phdr = match ElfProgramHeader::parse_at(data, offset) {
            Ok(p) => p,
            Err(_) => return Err(ElfLoadError::InvalidFormat),
        };
        match phdr.program_type() {
            Some(ProgramType::Load) => {
                match load_segment(&phdr, data) {
                    Ok(()) => {},
                    Err(e) => {
                        proof {
                            lemma_scan_err_propagates(d, i as int + 1, phnum as int);
                        }
                        return Err(e);
                    },
                }
                let seg_start = VirtAddr::new(phdr.p_vaddr);
                let seg_end = VirtAddr::new(phdr.p_vaddr + phdr.p_memsz);
                if seg_start.as_u64() < load_start.as_u64() {
                    load_start = seg_start;
                }
                if seg_end.as_u64() > load_end.as_u64() {
                    load_end = seg_end;
                }
            },
            Some(ProgramType::Interp) => {
                interp = Some(VirtAddr::new(phdr.p_vaddr));
            },
            _ => {},
        }
        i = i + 1;
    }
    if load_start.as_u64() == u64::MAX {
        return Err(ElfLoadError::InvalidFormat);
    }
    Ok(LoadedElf { entry_point: VirtAddr::new(header.e_entry), load_start, load_end, interp })
}

/// Tests what `load_elf` needs of its input: whether a valid header leads
/// to a program header scan without integer overflow.
pub fn load_safe(data: &[u8]) -> (b: bool)
    ensures
        b == spec_load_safe(data@),
{
    let ghost d = data@;
    let len = data.len();
    if len < 64 {
        return true;
    }
    if !(data[0] == 0x7f && data[1] == 0x45 && data[2] == 0x4c && data[3] == 0x46 && data[4] == 2 && data[5] == 1
        && data[6] == 1) {
        return true;
    }
    let etype = data[16] as u32 + 256 * data[17] as u32;
    let machine = data[18] as u32 + 256 * data[19] as u32;
    let phnum = data[56] as usize + 256 * data[57] as usize;
    if !((etype == 2 || etype == 3) && machine == 62 && phnum != 0) {
        return true;
    }
    let phoff: u128 = read_u64_le(data, 32) as u128;
    let phentsize: u128 = data[54] as u128 + 256 * data[55] as u128;
    let mut i: usize = 0;
    assert(spec_scan(d, 0) is Ok);
    while i < phnum
        invariant
            d == data@,
            len == d.len(),
            len >= 64,
            phnum == d[56] + 256 * d[57],
            phoff == spec_le_u64(d, 32),
            phoff <= u64::MAX,
            phentsize == d[54] + 256 * d[55],
            phentsize <= 0xFFFF,
            0 <= i <= phnum,
            phnum <= 0xFFFF,
            spec_ident_ok(d) && (d[16] + 256 * d[17] == 2 || d[16] + 256 * d[17] == 3) && d[18] + 256 * d[19] == 62,
            spec_scan_safe(d, i as int),
            spec_scan(d, i as int) is Ok,
        decreases phnum - i,
    {
        assert(i * phentsize <= 0xFFFF * 0xFFFF) by (nonlinear_arith)
            requires i <= 0xFFFF, phentsize <= 0xFFFF;
        let off: u128 = phoff + (i as u128) * phentsize;
        assert(off == spec_ph_offset(d, i as int));
        if off + 56 > usize::MAX as u128 {
            proof {
                lemma_scan_safe_prefix_neg(d, phnum as int, i as int + 1);
            }
            return false;
        }
        if off + 56 > len as u128 {
            proof {
                assert(spec_scan_safe(d, i as int + 1));
                assert(spec_scan(d, i as int + 1) is Err);
                lemma_scan_safe_after_err(d, i as int + 1, phnum as int);
            }
            return true;
        }
        let o = off as usize;
        let ptype = read_u32_le(data, o);
        if ptype == 1 {
            let p_offset: u128 = read_u64_le(data, o + 8) as u128;
            let p_vaddr: u128 = read_u64_le(data, o + 16) as u128;
            let p_filesz: u128 = read_u64_le(data, o + 32) as u128;
            let p_memsz: u128 = read_u64_le(data, o + 40) as u128;
            if p_filesz <= p_memsz && p_offset + p_filesz > usize::MAX as u128 {
                proof {
                    lemma_scan_safe_prefix_neg(d, phnum as int, i as int + 1);
                }
                return false;
            }
            let seg_ok = p_filesz <= p_memsz && p_offset + p_filesz <= len as u128;
            if seg_ok && p_vaddr + p_memsz > u64::MAX as u128 {
                proof {
                    lemma_scan_safe_prefix_neg(d, phnum as int, i as int + 1);
                }
                return false;
            }
            if !seg_ok {
                proof {
                    assert(spec_scan_safe(d, i as int + 1));
                    assert(spec_scan(d, i as int + 1) is Err);
                    lemma_scan_safe_after_err(d, i as int + 1, phnum as int);
                }
                return true;
            }
        }
        assert(spec_scan_safe(d, i as int + 1));
        assert(spec_scan(d, i as int + 1) is Ok);
        i = i + 1;
    }
    true
}

proof fn lemma_scan_safe_prefix_neg(d: Seq<u8>, n: int, k: int)
    requires
        !spec_scan_safe(d, k),
        0 <= k <= n,
    ensures
        !spec_scan_safe(d, n),
{
    if spec_scan_safe(d, n) {
        lemma_scan_safe_prefix(d, n, k);
    }
}

proof fn lemma_scan_safe_after_err(d: Seq<u8>, k: int, n: int)
    requires
        0 <= k <= n,
        spec_scan(d, k) is Err,
    ensures
        spec_scan_safe(d, n) == spec_scan_safe(d, k),
    decreases n - k,
{
    if k < n {
        lemma_scan_safe_after_err(d, k, n - 1);
        lemma_scan_err_propagates(d, k, n - 1);
    }
}

/// The program type of the `k`-th program header.
pub open spec fn spec_ph_type(d: Seq<u8>, k: int) -> Option<ProgramType> {
    spec_program_type(spec_le_u32(d, spec_ph_offset(d, k)) as u32)
}

/// The interpreter a successful scan reports is the virtual address (the
/// field at byte 16 of the header, not its file offset at byte 8) of the
/// last PT_INTERP header among those scanned; a scan without one reports
/// none.
pub proof fn lemma_scan_interp(d: Seq<u8>, n: int)
    requires
        n >= 0,
    ensures
        spec_scan(d, n) matches Ok((s, e, it)) ==> match it {
            Some(a) => exists|k: int|
                0 <= k < n && #[trigger] spec_ph_type(d, k) == Some(ProgramType::Interp) && a == spec_le_u64(
                    d,
                    spec_ph_offset(d, k) + 16,
                ) && forall|j: int| k < j < n ==> spec_ph_type(d, j) != Some(ProgramType::Interp),
            None => forall|k: int| 0 <= k < n ==> #[trigger] spec_ph_type(d, k) != Some(ProgramType::Interp),
        },
    decreases n,
{
    if n > 0 && spec_scan(d, n) is Ok {
        lemma_scan_interp(d, n - 1);
        let off = spec_ph_offset(d, n - 1);
        assert(spec_scan(d, n - 1) is Ok);
        assert(off + 56 <= d.len());
        let t = spec_ph_type(d, n - 1);
        let prev_it = spec_scan(d, n - 1)->Ok_0.2;
        let it = spec_scan(d, n)->Ok_0.2;
        if t == Some(ProgramType::Interp) {
            assert(it == Some(spec_le_u64(d, off + 16) as u64));
            assert(0 <= spec_le_u64(d, off + 16) <= u64::MAX) by {
                reveal(super::parser::spec_le_u64);
                reveal(super::parser::spec_le_u32);
                reveal(super::parser::spec_le_u16);
            }
            assert(spec_ph_type(d, n - 1) == Some(ProgramType::Interp));
        } else {
            assert(it == prev_it);
            if let Some(a) = prev_it {
                let k = choose|k: int|
                    0 <= k < n - 1 && #[trigger] spec_ph_type(d, k) == Some(ProgramType::Interp) && a == spec_le_u64(
                        d,
                        spec_ph_offset(d, k) + 16,
                    ) && forall|j: int| k < j < n - 1 ==> spec_ph_type(d, j) != Some(ProgramType::Interp);
                assert(forall|j: int| k < j < n ==> spec_ph_type(d, j) != Some(ProgramType::Interp));
            }
        }
    }
}

proof fn lemma_scan_err_propagates(d: Seq<u8>, k: int, n: int)
    requires
        0 <= k <= n,
        spec_scan(d, k) is Err,
    ensures
        spec_scan(d, n) == spec_scan(d, k),
    decreases n - k,
{
    if k < n {
        lemma_scan_err_propagates(d, k, n - 1);
    }
}

proof fn lemma_scan_safe_prefix(d: Seq<u8>, n: int, k: int)
    requires
        spec_scan_safe(d, n),
        0 <= k <= n,
    ensures
        spec_scan_safe(d, k),
    decreases n - k,
{
    if k < n {
        lemma_scan_safe_prefix(d, n - 1, k);
    }
}

} // verus!
