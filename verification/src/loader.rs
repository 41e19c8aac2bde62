//! ELF64 loader: checks the header of a statically linked little-endian
//! RISC-V executable and places each `PT_LOAD` segment into guest memory,
//! with its BSS tail zeroed and the segment's permission mask applied.
//! The whole load is specified as a function of the file bytes: the
//! header checks in their order, then one state transformation per
//! program header.
use vstd::prelude::*;

use crate::memory::{
    mmu_after_dram_set, mmu_after_dram_write, mmu_after_perm_set, mmu_wf, write_ok, Mmu, MmmuErr,
    MmuView, PERM_R, PERM_W, PERM_X,
};
use crate::words::le_val;

verus! {

#[derive(Debug, PartialEq, Eq, Structural, Clone, Copy)]
pub enum LoaderErr {
    UnableToReadFile,
    UnsupportedFileType,
    InvalidFile,
    DramIoFail(MmmuErr),
}

/// The number the `n` little-endian bytes of `d` at `off` denote.
pub open spec fn le_at(d: Seq<u8>, off: int, n: int) -> int {
    le_val(d.subrange(off, off + n))
}

/// ELF identification: the file class byte (2 for 64-bit).
pub open spec fn elf_class(d: Seq<u8>) -> int {
    d[4] as int
}

/// ELF identification: the data-encoding byte (1 for little-endian).
pub open spec fn elf_data(d: Seq<u8>) -> int {
    d[5] as int
}

/// The object file type (2 for an executable).
pub open spec fn elf_type(d: Seq<u8>) -> int {
    le_at(d, 16, 2)
}

/// The machine field (243 for RISC-V).
pub open spec fn elf_machine(d: Seq<u8>) -> int {
    le_at(d, 18, 2)
}

/// The entry point address.
pub open spec fn elf_entry(d: Seq<u8>) -> int {
    le_at(d, 24, 8)
}

/// The file offset of the program header table.
pub open spec fn elf_phoff(d: Seq<u8>) -> int {
    le_at(d, 32, 8)
}

/// The file offset of the section header table.
pub open spec fn elf_shoff(d: Seq<u8>) -> int {
    le_at(d, 40, 8)
}

/// The size of one program header table entry.
pub open spec fn elf_phentsize(d: Seq<u8>) -> int {
    le_at(d, 54, 2)
}

/// The number of program header table entries.
pub open spec fn elf_phnum(d: Seq<u8>) -> int {
    le_at(d, 56, 2)
}

/// The size of one section header table entry.
pub open spec fn elf_shentsize(d: Seq<u8>) -> int {
    le_at(d, 58, 2)
}

/// The number of section header table entries.
pub open spec fn elf_shnum(d: Seq<u8>) -> int {
    le_at(d, 60, 2)
}

/// The ELF magic holds in the first four bytes and the file reaches past
/// them.
pub open spec fn has_elf_magic(d: Seq<u8>) -> bool {
    d.len() > 4 && d[0] == 0x7F && d[1] == 0x45 && d[2] == 0x4C && d[3] == 0x46
}

/// The checks the loader runs over the file header before touching
/// memory, in order; `None` when the file passes all of them.
pub open spec fn elf_header_error(d: Seq<u8>) -> Option<LoaderErr> {
    if !has_elf_magic(d) {
        Some(LoaderErr::UnsupportedFileType)
    } else if d.len() < 64 {
        Some(LoaderErr::InvalidFile)
    } else if elf_class(d) != 2 {
        Some(LoaderErr::UnsupportedFileType)
    } else if elf_phentsize(d) != 56 {
        Some(LoaderErr::InvalidFile)
    } else if elf_phoff(d) + 56 * elf_phnum(d) > d.len() {
        Some(LoaderErr::InvalidFile)
    } else if elf_phoff(d) != 0 && elf_phnum(d) == 0 {
        Some(LoaderErr::InvalidFile)
    } else if elf_shentsize(d) != 64 {
        Some(LoaderErr::InvalidFile)
    } else if elf_shoff(d) + 64 * elf_shnum(d) > d.len() {
        Some(LoaderErr::InvalidFile)
    } else if elf_shoff(d) != 0 && elf_shnum(d) == 0 {
        Some(LoaderErr::InvalidFile)
    } else if elf_data(d) != 1 {
        Some(LoaderErr::UnsupportedFileType)
    } else if elf_type(d) != 2 {
        Some(LoaderErr::UnsupportedFileType)
    } else if elf_machine(d) != 243 {
        Some(LoaderErr::UnsupportedFileType)
    } else if elf_entry(d) == 0 {
        Some(LoaderErr::UnsupportedFileType)
    } else if elf_entry(d) > usize::MAX {
        Some(LoaderErr::UnsupportedFileType)
    } else if elf_phoff(d) == 0 {
        Some(LoaderErr::InvalidFile)
    } else {
        None
    }
}

/// The permission mask a segment's flags word grants: the readable,
/// writable and executable flag bits map to `PERM_R`, `PERM_W` and
/// `PERM_X`.
pub open spec fn seg_perm_mask(flags: int) -> u8 {
    (((if (flags / 4) % 2 == 1 {
        PERM_R
    } else {
        0
    }) + (if (flags / 2) % 2 == 1 {
        PERM_W
    } else {
        0
    }) + (if flags % 2 == 1 {
        PERM_X
    } else {
        0
    })) as u8)
}

/// Copying a segment's file bytes into DRAM: skipped when the segment
/// holds no file bytes, failing with the MMU's bounds error when the
/// placement cannot be addressed or cannot fit under the cap.
pub open spec fn seg_file_copy(m: MmuView, d: Seq<u8>, vaddr: int, off: int, filesz: int) -> (
    MmuView,
    Option<LoaderErr>,
) {
    if filesz == 0 {
        (m, None)
    } else if vaddr + filesz > usize::MAX {
        (m, Some(LoaderErr::DramIoFail(MmmuErr::IndexOutOfBounds(usize::MAX))))
    } else if !write_ok(m.dram.len(), vaddr, filesz) {
        (m, Some(LoaderErr::DramIoFail(MmmuErr::IndexOutOfBounds((vaddr + filesz) as usize))))
    } else {
        (mmu_after_dram_write(m, vaddr, d.subrange(off, off + filesz)), None)
    }
}

/// Zeroing a segment's BSS tail, the bytes between its file size and its
/// memory size.
pub open spec fn seg_zero_fill(m: MmuView, vaddr: int, filesz: int, memsz: int) -> (
    MmuView,
    Option<LoaderErr>,
) {
    if memsz <= filesz {
        (m, None)
    } else if vaddr + memsz > usize::MAX {
        (m, Some(LoaderErr::DramIoFail(MmmuErr::IndexOutOfBounds(usize::MAX))))
    } else if !write_ok(m.dram.len(), vaddr + filesz, memsz - filesz) {
        (m, Some(LoaderErr::DramIoFail(MmmuErr::IndexOutOfBounds((vaddr + memsz) as usize))))
    } else {
        (mmu_after_dram_set(m, 0, vaddr + filesz, memsz - filesz), None)
    }
}

/// Applying a segment's permission mask over its whole memory image.
pub open spec fn seg_apply_perm(m: MmuView, vaddr: int, memsz: int, perm: u8) -> (
    MmuView,
    Option<LoaderErr>,
) {
    if vaddr + memsz > usize::MAX {
        (m, Some(LoaderErr::DramIoFail(MmmuErr::IndexOutOfBounds(usize::MAX))))
    } else if !write_ok(m.dram.len(), vaddr, memsz) {
        (m, Some(LoaderErr::DramIoFail(MmmuErr::IndexOutOfBounds((vaddr + memsz) as usize))))
    } else {
        (mmu_after_perm_set(m, vaddr, memsz, perm), None)
    }
}

/// Processing of the program header at file offset `ph`: a non-loadable
/// segment changes nothing; a `PT_LOAD` segment is validated, copied,
/// zero-filled and given its permissions, stopping at the first failure
/// with the memory written so far kept.
pub open spec fn seg_step(m: MmuView, d: Seq<u8>, ph: int) -> (MmuView, Option<LoaderErr>) {
    if le_at(d, ph, 4) != 1 {
        (m, None)
    } else {
        let flags = le_at(d, ph + 4, 4);
        let off = le_at(d, ph + 8, 8);
        let vaddr = le_at(d, ph + 16, 8);
        let filesz = le_at(d, ph + 32, 8);
        let memsz = le_at(d, ph + 40, 8);
        if filesz > memsz {
            (m, Some(LoaderErr::InvalidFile))
        } else if off + filesz > d.len() {
            (m, Some(LoaderErr::InvalidFile))
        } else {
            let step1 = seg_file_copy(m, d, vaddr, off, filesz);
            if step1.1 is Some {
                step1
            } else {
                let step2 = seg_zero_fill(step1.0, vaddr, filesz, memsz);
                if step2.1 is Some {
                    step2
                } else {
                    seg_apply_perm(step2.0, vaddr, memsz, seg_perm_mask(flags))
                }
            }
        }
    }
}

/// Processing of the program headers from index `i` on: the MMU state
/// after each `PT_LOAD` segment is placed, and the first error if one
/// arises, with the state reached up to that point.
pub open spec fn load_segments(m: MmuView, d: Seq<u8>, phoff: int, phnum: int, i: int) -> (
    MmuView,
    Option<LoaderErr>,
)
    decreases phnum - i,
{
    if i >= phnum {
        (m, None)
    } else {
        let step = seg_step(m, d, phoff + 56 * i);
        if step.1 is Some {
            step
        } else {
            load_segments(step.0, d, phoff, phnum, i + 1)
        }
    }
}

/// The complete load: the MMU state it leaves behind (even when a middle
/// segment fails) and the entry point or the first error.
pub open spec fn elf_load_result(m: MmuView, d: Seq<u8>) -> (MmuView, Result<usize, LoaderErr>) {
    match elf_header_error(d) {
        Some(e) => (m, Err(e)),
        None => {
            let loaded = load_segments(m, d, elf_phoff(d), elf_phnum(d), 0);
            match loaded.1 {
                Some(e) => (loaded.0, Err(e)),
                None => (loaded.0, Ok(elf_entry(d) as usize)),
            }
        },
    }
}

/// Read the `n`-byte little-endian field of `d` at `off`.
fn read_le(d: &[u8], off: usize, n: usize) -> (r: u64)
    requires
        n <= 8,
        off + n <= d@.len(),
    ensures
        r == le_at(d@, off as int, n as int),
        r < crate::words::bytes_bound(n as nat),
{
    proof {
        crate::words::lemma_bytes_bound_values();
    }
    let dlen = d.len();
    let mut r: u64 = 0;
    let mut i: usize = n;
    while i > 0
        invariant
            i <= n <= 8,
            off + n <= d@.len(),
            d@.len() == dlen,
            r == le_val(d@.subrange((off + i) as int, (off + n) as int)),
            r < crate::words::bytes_bound((n - i) as nat),
            crate::words::bytes_bound(8) == 0x1_0000_0000_0000_0000,
        decreases i,
    {
        i = i - 1;
        proof {
            crate::words::lemma_bytes_bound_values();
            crate::words::lemma_le_val_bound(
                d@.subrange((off + i) as int, (off + n) as int),
            );
            assert(d@.subrange((off + i) as int, (off + n) as int).subrange(
                1,
                (n - i) as int,
            ) =~= d@.subrange((off + i + 1) as int, (off + n) as int));
        }
        r = r * 0x100 + (d[off + i] as u64);
    }
    r
}

/// Place the loadable segments of the ELF64 executable image `data` into
/// guest memory and return its entry point.  The header is validated
/// first; each `PT_LOAD` segment is then copied, its BSS tail zeroed and
/// its permission mask applied, and a failing segment stops the load with
/// the memory written so far kept.
pub fn load_elf_to_dram(mmu: &mut Mmu, data: &[u8]) -> (r: Result<usize, LoaderErr>)
    requires
        old(mmu).wf(),
    ensures
        final(mmu).wf(),
        ({
            let outcome = elf_load_result(old(mmu)@, data@);
            final(mmu)@ == outcome.0 && r == outcome.1
        }),
{
    proof {
        crate::words::lemma_bytes_bound_values();
    }
    let n = data.len();
    if n <= 4 || !(data[0] == 0x7F && data[1] == 0x45 && data[2] == 0x4C && data[3] == 0x46) {
        return Err(LoaderErr::UnsupportedFileType);
    }
    if n < 64 {
        return Err(LoaderErr::InvalidFile);
    }
    if data[4] != 2 {
        return Err(LoaderErr::UnsupportedFileType);
    }
    if read_le(data, 54, 2) != 56 {
        return Err(LoaderErr::InvalidFile);
    }
    let phoff = read_le(data, 32, 8);
    let phnum = read_le(data, 56, 2);
    if phoff > u64::MAX - 56 * phnum || phoff + 56 * phnum > n as u64 {
        return Err(LoaderErr::InvalidFile);
    }
    if phoff != 0 && phnum == 0 {
        return Err(LoaderErr::InvalidFile);
    }
    if read_le(data, 58, 2) != 64 {
        return Err(LoaderErr::InvalidFile);
    }
    let shoff = read_le(data, 40, 8);
    let shnum = read_le(data, 60, 2);
    if shoff > u64::MAX - 64 * shnum || shoff + 64 * shnum > n as u64 {
        return Err(LoaderErr::InvalidFile);
    }
    if shoff != 0 && shnum == 0 {
        return Err(LoaderErr::InvalidFile);
    }
    if data[5] != 1 {
        return Err(LoaderErr::UnsupportedFileType);
    }
    if read_le(data, 16, 2) != 2 {
        return Err(LoaderErr::UnsupportedFileType);
    }
    if read_le(data, 18, 2) != 243 {
        return Err(LoaderErr::UnsupportedFileType);
    }
    let entry = read_le(data, 24, 8);
    if entry == 0 {
        return Err(LoaderErr::UnsupportedFileType);
    }
    if entry > usize::MAX as u64 {
        return Err(LoaderErr::UnsupportedFileType);
    }
    if phoff == 0 {
        return Err(LoaderErr::InvalidFile);
    }
    let ghost m0 = mmu@;
    let ghost dd = data@;
    let mut i: u64 = 0;
    while i < phnum
        invariant
            mmu.wf(),
            m0 == old(mmu)@,
            i <= phnum,
            n == dd.len(),
            dd == data@,
            elf_header_error(dd) is None,
            phoff == elf_phoff(dd),
            phnum == elf_phnum(dd),
            entry == elf_entry(dd),
            phoff + 56 * phnum <= n,
            load_segments(m0, dd, phoff as int, phnum as int, 0) == load_segments(
                mmu@,
                dd,
                phoff as int,
                phnum as int,
                i as int,
            ),
        decreases phnum - i,
    {
        let ghost m_at_entry = mmu@;
        let ph = (phoff + 56 * i) as usize;
        let ghost phg = ph as int;
        assert(ph + 56 <= n);
        let ty = read_le(data, ph, 4);
        if ty == 1 {
            let flags = read_le(data, ph + 4, 4);
            let off = read_le(data, ph + 8, 8);
            let vaddr = read_le(data, ph + 16, 8);
            let filesz = read_le(data, ph + 32, 8);
            let memsz = read_le(data, ph + 40, 8);
            if filesz > memsz {
                proof {
                    assert(seg_step(m_at_entry, dd, phg) == (
                        mmu@,
                        Some(LoaderErr::InvalidFile),
                    ));
                    assert(load_segments(m_at_entry, dd, phoff as int, phnum as int, i as int)
                        == (mmu@, Some(LoaderErr::InvalidFile)));
                    assert(elf_load_result(old(mmu)@, data@) == (
                        mmu@,
                        Err::<usize, LoaderErr>(LoaderErr::InvalidFile),
                    ));
                }
                return Err(LoaderErr::InvalidFile);
            }
            if off > u64::MAX - filesz || off + filesz > n as u64 {
                proof {
                    assert(seg_step(m_at_entry, dd, phg) == (
                        mmu@,
                        Some(LoaderErr::InvalidFile),
                    ));
                    assert(load_segments(m_at_entry, dd, phoff as int, phnum as int, i as int)
                        == (mmu@, Some(LoaderErr::InvalidFile)));
                    assert(elf_load_result(old(mmu)@, data@) == (
                        mmu@,
                        Err::<usize, LoaderErr>(LoaderErr::InvalidFile),
                    ));
                }
                return Err(LoaderErr::InvalidFile);
            }
            if filesz != 0 {
                if vaddr > usize::MAX as u64 - filesz {
                    return Err(LoaderErr::DramIoFail(MmmuErr::IndexOutOfBounds(usize::MAX)));
                }
                let src = off as usize;
                let src_end = src + filesz as usize;
                match mmu.dram_write(vaddr as usize, &data[src..src_end]) {
                    Err(e) => {
                        return Err(LoaderErr::DramIoFail(e));
                    },
                    Ok(_) => {},
                }
            }
            if memsz > filesz {
                if memsz > usize::MAX as u64 || vaddr > usize::MAX as u64 - memsz {
                    return Err(LoaderErr::DramIoFail(MmmuErr::IndexOutOfBounds(usize::MAX)));
                }
                let v2 = (vaddr + filesz) as usize;
                let sz2 = (memsz - filesz) as usize;
                match mmu.dram_set(0, v2, sz2) {
                    Err(e) => {
                        return Err(LoaderErr::DramIoFail(e));
                    },
                    Ok(_) => {},
                }
            }
            let mut perm: u8 = 0;
            if (flags / 4) % 2 == 1 {
                perm = perm + PERM_R;
            }
            if (flags / 2) % 2 == 1 {
                perm = perm + PERM_W;
            }
            if flags % 2 == 1 {
                perm = perm + PERM_X;
            }
            assert(perm == seg_perm_mask(le_at(dd, phg + 4, 4)));
            if memsz > usize::MAX as u64 || vaddr > usize::MAX as u64 - memsz {
                return Err(LoaderErr::DramIoFail(MmmuErr::IndexOutOfBounds(usize::MAX)));
            }
            match mmu.perm_set(vaddr as usize, memsz as usize, perm) {
                Err(e) => {
                    return Err(LoaderErr::DramIoFail(e));
                },
                Ok(_) => {},
            }
        }
        i = i + 1;
        proof {
            assert(seg_step(m_at_entry, dd, phg) == (mmu@, None::<LoaderErr>));
        }
    }
    Ok(entry as usize)
}

} // verus!
