use rv64emu::emulator::{Emulator, EmulatorErr};
use rv64emu::loader::{load_elf_to_dram, LoaderErr};
use rv64emu::memory::Mmu;

struct Segment {
    vaddr: u64,
    filesz: u64,
    memsz: u64,
    flags: u32,
    payload: Vec<u8>,
}

/// Build a minimal statically linked ELF64 image for RISC-V with the
/// given entry point and loadable segments, payloads packed after the
/// program header table.
fn make_elf(entry: u64, segments: &[Segment]) -> Vec<u8> {
    let phnum = segments.len() as u64;
    let phoff = 64u64;
    let payload_base = phoff + 56 * phnum;
    let mut elf = vec![0u8; payload_base as usize];
    // e_ident
    elf[0..4].copy_from_slice(&[0x7F, 0x45, 0x4C, 0x46]);
    elf[4] = 2; // 64-bit
    elf[5] = 1; // little-endian
    elf[6] = 1;
    elf[16..18].copy_from_slice(&2u16.to_le_bytes()); // ET_EXEC
    elf[18..20].copy_from_slice(&243u16.to_le_bytes()); // RISC-V
    elf[20..24].copy_from_slice(&1u32.to_le_bytes());
    elf[24..32].copy_from_slice(&entry.to_le_bytes());
    elf[32..40].copy_from_slice(&phoff.to_le_bytes());
    elf[40..48].copy_from_slice(&0u64.to_le_bytes()); // no sections
    elf[52..54].copy_from_slice(&64u16.to_le_bytes());
    elf[54..56].copy_from_slice(&56u16.to_le_bytes());
    elf[56..58].copy_from_slice(&(phnum as u16).to_le_bytes());
    elf[58..60].copy_from_slice(&64u16.to_le_bytes());
    elf[60..62].copy_from_slice(&0u16.to_le_bytes());
    let mut offset = payload_base;
    for (i, seg) in segments.iter().enumerate() {
        let ph = (phoff + 56 * i as u64) as usize;
        elf[ph..ph + 4].copy_from_slice(&1u32.to_le_bytes()); // PT_LOAD
        elf[ph + 4..ph + 8].copy_from_slice(&seg.flags.to_le_bytes());
        elf[ph + 8..ph + 16].copy_from_slice(&offset.to_le_bytes());
        elf[ph + 16..ph + 24].copy_from_slice(&seg.vaddr.to_le_bytes());
        elf[ph + 24..ph + 32].copy_from_slice(&seg.vaddr.to_le_bytes());
        elf[ph + 32..ph + 40].copy_from_slice(&seg.filesz.to_le_bytes());
        elf[ph + 40..ph + 48].copy_from_slice(&seg.memsz.to_le_bytes());
        elf[ph + 48..ph + 56].copy_from_slice(&0x1000u64.to_le_bytes());
        offset += seg.filesz;
    }
    for seg in segments {
        elf.extend_from_slice(&seg.payload);
    }
    elf
}

const PF_X: u32 = 0x1;
const PF_W: u32 = 0x2;
const PF_R: u32 = 0x4;

#[test]
fn load_places_segment_and_runs_first_instruction() {
    // one RX segment holding "addi x1, x0, 5", with a 4-byte BSS tail
    let elf = make_elf(
        0x1000,
        &[Segment {
            vaddr: 0x1000,
            filesz: 4,
            memsz: 8,
            flags: PF_R | PF_X,
            payload: 0x00500093u32.to_le_bytes().to_vec(),
        }],
    );
    let mut emu = Emulator::new();
    emu.load(&elf).unwrap();
    assert_eq!(
        emu.cpu
            .get_reg(rv64emu::cpu::RegType::ProgCounter, 0)
            .unwrap(),
        0x1000
    );
    // the instruction is in memory and executable
    emu.exec().unwrap();
    assert_eq!(
        emu.cpu
            .get_reg(rv64emu::cpu::RegType::GenPurpose, 1)
            .unwrap(),
        5
    );
    // the BSS tail was zero-filled and is executable: the next step
    // fetches the zero word and reports it as an invalid instruction
    assert_eq!(
        emu.exec(),
        Err(EmulatorErr::ErrCpu(rv64emu::cpu::CpuErr::InvalidInstruction(
            0
        )))
    );
}

#[test]
fn load_applies_the_segment_permission_mask() {
    // a read/write segment is not executable: fetching from it faults
    let elf = make_elf(
        0x1000,
        &[Segment {
            vaddr: 0x1000,
            filesz: 4,
            memsz: 4,
            flags: PF_R | PF_W,
            payload: 0x00500093u32.to_le_bytes().to_vec(),
        }],
    );
    let mut emu = Emulator::new();
    emu.load(&elf).unwrap();
    assert_eq!(
        emu.exec(),
        Err(EmulatorErr::ErrException(
            rv64emu::exceptions::Exceptions::ExceptionAccessFault(0x1000)
        ))
    );
}

#[test]
fn file_without_elf_magic_is_unsupported() {
    let mut mmu = Mmu::new();
    assert_eq!(
        load_elf_to_dram(&mut mmu, &[0u8; 128]),
        Err(LoaderErr::UnsupportedFileType)
    );
}

#[test]
fn short_file_is_invalid() {
    let mut mmu = Mmu::new();
    assert_eq!(
        load_elf_to_dram(&mut mmu, &[0x7F, 0x45, 0x4C, 0x46, 2, 1, 1, 0]),
        Err(LoaderErr::InvalidFile)
    );
}

#[test]
fn wrong_class_is_unsupported() {
    let mut elf = make_elf(0x1000, &[]);
    elf[4] = 1; // 32-bit class
    let mut mmu = Mmu::new();
    assert_eq!(
        load_elf_to_dram(&mut mmu, &elf),
        Err(LoaderErr::UnsupportedFileType)
    );
}

#[test]
fn wrong_machine_is_unsupported() {
    let mut elf = make_elf(
        0x1000,
        &[Segment {
            vaddr: 0x1000,
            filesz: 0,
            memsz: 0,
            flags: PF_R,
            payload: vec![],
        }],
    );
    elf[18..20].copy_from_slice(&62u16.to_le_bytes());
    let mut mmu = Mmu::new();
    assert_eq!(
        load_elf_to_dram(&mut mmu, &elf),
        Err(LoaderErr::UnsupportedFileType)
    );
}

#[test]
fn zero_entry_is_unsupported() {
    let elf = make_elf(
        0,
        &[Segment {
            vaddr: 0x1000,
            filesz: 0,
            memsz: 0,
            flags: PF_R,
            payload: vec![],
        }],
    );
    let mut mmu = Mmu::new();
    assert_eq!(
        load_elf_to_dram(&mut mmu, &elf),
        Err(LoaderErr::UnsupportedFileType)
    );
}

#[test]
fn file_without_program_headers_is_invalid() {
    let mut elf = make_elf(0x1000, &[]);
    elf[32..40].copy_from_slice(&0u64.to_le_bytes()); // phoff = 0
    let mut mmu = Mmu::new();
    assert_eq!(load_elf_to_dram(&mut mmu, &elf), Err(LoaderErr::InvalidFile));
}

#[test]
fn segment_with_file_size_above_memory_size_is_invalid() {
    let elf = make_elf(
        0x1000,
        &[Segment {
            vaddr: 0x1000,
            filesz: 8,
            memsz: 4,
            flags: PF_R,
            payload: vec![0; 8],
        }],
    );
    let mut mmu = Mmu::new();
    assert_eq!(load_elf_to_dram(&mut mmu, &elf), Err(LoaderErr::InvalidFile));
}

#[test]
fn segment_past_the_dram_cap_reports_the_mmu_error() {
    let elf = make_elf(
        0x1000,
        &[Segment {
            vaddr: 64 * 1024 * 1024,
            filesz: 4,
            memsz: 4,
            flags: PF_R,
            payload: vec![1, 2, 3, 4],
        }],
    );
    let mut mmu = Mmu::new();
    let r = load_elf_to_dram(&mut mmu, &elf);
    assert_eq!(
        r,
        Err(LoaderErr::DramIoFail(
            rv64emu::memory::MmmuErr::IndexOutOfBounds(64 * 1024 * 1024 + 4)
        ))
    );
}

#[test]
fn truncated_segment_payload_is_invalid() {
    let mut elf = make_elf(
        0x1000,
        &[Segment {
            vaddr: 0x1000,
            filesz: 4,
            memsz: 4,
            flags: PF_R,
            payload: vec![9, 9, 9, 9],
        }],
    );
    elf.truncate(elf.len() - 2);
    let mut mmu = Mmu::new();
    assert_eq!(load_elf_to_dram(&mut mmu, &elf), Err(LoaderErr::InvalidFile));
}
