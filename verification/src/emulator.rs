//! The emulator: one CPU and one MMU, wired together by the
//! fetch/decode/execute step.
use vstd::prelude::*;

use crate::cpu::{cpu_wf, Cpu, CpuErr, CpuView, RegType, INSTRUCTION_SIZE};
use crate::decoder::{decode, spec_decode};
use crate::exceptions::Exceptions;
use crate::loader::LoaderErr;
use crate::memory::{mmu_wf, read_bytes, read_ok, Mmu, MmmuErr, MmuView, PERM_X};
use crate::words::{le_to_u32, le_val, lemma_bytes_bound_values, lemma_le_val_bound};

verus! {

#[derive(Debug, PartialEq, Eq, Structural, Clone, Copy)]
pub enum EmulatorErr {
    ErrLoader(LoaderErr),
    ErrCpu(CpuErr),
    ErrMmu(MmmuErr),
    ErrException(Exceptions),
}

/// The emulator: exclusive owner of one CPU and one MMU.
pub struct Emulator {
    pub cpu: Cpu,
    pub mmu: Mmu,
}

/// Mathematical model of the whole machine.
pub struct EmuView {
    pub cpu: CpuView,
    pub mmu: MmuView,
}

/// Well-formedness of the whole machine.
pub open spec fn emu_wf(v: EmuView) -> bool {
    &&& cpu_wf(v.cpu)
    &&& mmu_wf(v.mmu)
}

impl View for Emulator {
    type V = EmuView;

    open spec fn view(&self) -> EmuView {
        EmuView { cpu: self.cpu@, mmu: self.mmu@ }
    }
}

/// Every byte of `p` carries the permission bit `bit`.
pub open spec fn perm_all(p: Seq<u8>, bit: u8) -> bool {
    forall|i: int| 0 <= i < p.len() ==> (#[trigger] p[i]) & bit == bit
}

impl Emulator {
    pub open spec fn wf(&self) -> bool {
        emu_wf(self@)
    }

    /// A fresh machine: zeroed CPU and a fresh MMU.
    pub fn new() -> (e: Emulator)
        ensures
            e.wf(),
            e@.cpu.pc == 0,
            e@.cpu.regs =~= Seq::new(32, |i: int| 0u64),
            e@.mmu.dram =~= Seq::new(crate::memory::DRAM_SIZE_INITIAL as nat, |i: int| 0u8),
            e@.mmu.perm =~= Seq::new(crate::memory::DRAM_SIZE_INITIAL as nat, |i: int| 0u8),
    {
        Emulator { cpu: Cpu::new(), mmu: Mmu::new() }
    }

    /// Fetch the 32-bit instruction word at the PC, assembling the four
    /// bytes little-endian.  Fails with the MMU's bounds error when the PC
    /// does not point into DRAM.
    pub fn fetch_rinst(&self) -> (r: Result<u32, EmulatorErr>)
        requires
            self.wf(),
        ensures
            read_ok(self@.mmu.dram.len(), self@.cpu.pc as int, 4) ==> r == Ok::<u32, EmulatorErr>(
                le_val(read_bytes(self@.mmu.dram, self@.cpu.pc as int, 4)) as u32,
            ),
            !read_ok(self@.mmu.dram.len(), self@.cpu.pc as int, 4) ==> r == Err::<
                u32,
                EmulatorErr,
            >(
                EmulatorErr::ErrMmu(
                    MmmuErr::IndexOutOfBounds(
                        if self@.cpu.pc + 4 <= usize::MAX {
                            (self@.cpu.pc + 4) as usize
                        } else {
                            usize::MAX
                        },
                    ),
                ),
            ),
    {
        let pc = match self.cpu.get_reg(RegType::ProgCounter, 0) {
            Ok(v) => v,
            Err(e) => {
                return Err(EmulatorErr::ErrCpu(e));
            },
        };
        if pc > (usize::MAX as u64) {
            return Err(
                EmulatorErr::ErrMmu(MmmuErr::IndexOutOfBounds(usize::MAX)),
            );
        }
        match self.mmu.dram_read(pc as usize, INSTRUCTION_SIZE) {
            Ok(b) => {
                proof {
                    lemma_bytes_bound_values();
                    lemma_le_val_bound(b@);
                }
                Ok(le_to_u32(&b))
            },
            Err(e) => Err(EmulatorErr::ErrMmu(e)),
        }
    }
}

/// One fetch/decode/execute step from state `s`: check PC alignment,
/// check that all four fetched bytes are executable, assemble the
/// little-endian instruction word, decode it and execute it.  MMU
/// failures on the fetch path surface as access faults at the PC.
pub open spec fn step_spec(s: EmuView) -> Result<EmuView, EmulatorErr> {
    let pc = s.cpu.pc;
    if pc % 4 != 0 {
        Err(EmulatorErr::ErrException(Exceptions::ExceptionInstructionAddressMisaligned(pc)))
    } else if !read_ok(s.mmu.dram.len(), pc as int, 4) {
        Err(EmulatorErr::ErrException(Exceptions::ExceptionAccessFault(pc)))
    } else if !perm_all(read_bytes(s.mmu.perm, pc as int, 4), PERM_X) {
        Err(EmulatorErr::ErrException(Exceptions::ExceptionAccessFault(pc)))
    } else {
        let w = le_val(read_bytes(s.mmu.dram, pc as int, 4)) as u32;
        crate::cpu::exec_inst(s, spec_decode(w), w)
    }
}

impl Emulator {
    /// Run one fetch/decode/execute step: either the machine takes the
    /// decoded instruction's effect, or the step's trap is raised and the
    /// architectural state is left exactly as it was.
    pub fn exec(&mut self) -> (r: Result<(), EmulatorErr>)
        requires
            old(self).wf(),
        ensures
            final(self).wf(),
            match step_spec(old(self)@) {
                Ok(v) => r is Ok && final(self)@ == v,
                Err(e) => r == Err::<(), EmulatorErr>(e) && final(self)@ == old(self)@,
            },
    {
        let pc = match self.cpu.get_reg(RegType::ProgCounter, 0) {
            Ok(v) => v,
            Err(_) => {
                proof {
                    assert(false);
                }
                0
            },
        };
        if pc % 4 != 0 {
            return Err(
                EmulatorErr::ErrException(Exceptions::ExceptionInstructionAddressMisaligned(pc)),
            );
        }
        if pc > (usize::MAX as u64) {
            // The PC cannot index host memory at all; DRAM ends far below.
            return Err(EmulatorErr::ErrException(Exceptions::ExceptionAccessFault(pc)));
        }
        let a = pc as usize;
        let perms = match self.mmu.perm_get(a, INSTRUCTION_SIZE) {
            Err(_) => {
                return Err(EmulatorErr::ErrException(Exceptions::ExceptionAccessFault(pc)));
            },
            Ok(p) => p,
        };
        let ghost pseq = read_bytes(self@.mmu.perm, pc as int, 4);
        if perms[0] & PERM_X != PERM_X {
            assert(pseq[0] == perms@[0]);
            return Err(EmulatorErr::ErrException(Exceptions::ExceptionAccessFault(pc)));
        }
        if perms[1] & PERM_X != PERM_X {
            assert(pseq[1] == perms@[1]);
            return Err(EmulatorErr::ErrException(Exceptions::ExceptionAccessFault(pc)));
        }
        if perms[2] & PERM_X != PERM_X {
            assert(pseq[2] == perms@[2]);
            return Err(EmulatorErr::ErrException(Exceptions::ExceptionAccessFault(pc)));
        }
        if perms[3] & PERM_X != PERM_X {
            assert(pseq[3] == perms@[3]);
            return Err(EmulatorErr::ErrException(Exceptions::ExceptionAccessFault(pc)));
        }
        assert(perm_all(pseq, PERM_X)) by {
            assert(forall|i: int| 0 <= i < 4 ==> (#[trigger] pseq[i]) & PERM_X == PERM_X) by {
                assert(pseq[0] == perms@[0] && pseq[1] == perms@[1] && pseq[2] == perms@[2]
                    && pseq[3] == perms@[3]);
            }
        }
        let bytes = match self.mmu.dram_read(a, INSTRUCTION_SIZE) {
            Ok(b) => b,
            Err(_) => {
                proof {
                    assert(false);
                }
                return Err(EmulatorErr::ErrException(Exceptions::ExceptionAccessFault(pc)));
            },
        };
        proof {
            lemma_bytes_bound_values();
            lemma_le_val_bound(bytes@);
        }
        let w = le_to_u32(&bytes);
        let inst = decode(w);
        proof {
            crate::cpu::lemma_decode_wf(w);
        }
        Cpu::exec(self, inst, w)
    }
}

impl Emulator {
    /// Load an ELF executable image into guest memory and point the PC at
    /// its reported entry; on a loader error the CPU is untouched and the
    /// memory holds whatever the loader wrote before failing.
    pub fn load(&mut self, data: &[u8]) -> (r: Result<(), EmulatorErr>)
        requires
            old(self).wf(),
        ensures
            final(self).wf(),
            ({
                let outcome = crate::loader::elf_load_result(old(self)@.mmu, data@);
                final(self)@.mmu == outcome.0 && match outcome.1 {
                    Ok(entry) => r is Ok && final(self)@.cpu == (CpuView {
                        regs: old(self)@.cpu.regs,
                        pc: entry as u64,
                    }),
                    Err(e) => r == Err::<(), EmulatorErr>(EmulatorErr::ErrLoader(e))
                        && final(self)@.cpu == old(self)@.cpu,
                }
            }),
    {
        match crate::loader::load_elf_to_dram(&mut self.mmu, data) {
            Err(e) => Err(EmulatorErr::ErrLoader(e)),
            Ok(entry) => {
                match self.cpu.set_reg(RegType::ProgCounter, 0, entry as u64) {
                    Ok(_) => Ok(()),
                    Err(_) => {
                        proof {
                            assert(false);
                        }
                        Ok(())
                    },
                }
            },
        }
    }
}

} // verus!
