use vstd::prelude::*;
use crate::Fault;
use crate::mmu::{Mmu, Perm, VirtAddr, PERM_READ, PERM_WRITE};
use crate::processor::{
    Processor, Register, Operation, INSTRUCTION_SZ, reg_idx, rd_of, jal_dest, first_match,
    spec_instructions, sign_extend, j_imm_raw, op_add, op_jal,
};

verus! {

broadcast use vstd::array::group_array_axioms;

/// The 32-bit word stored little-endian in four consecutive bytes.
pub open spec fn le_word(b0: u8, b1: u8, b2: u8, b3: u8) -> u32 {
    (b0 as u32) | ((b1 as u32) << 8) | ((b2 as u32) << 16) | ((b3 as u32) << 24)
}

/// Whether one execution step from register state `regs` over memory `mem`
/// faults, and with which fault: a fetch that leaves the memory or hits an
/// unreadable byte, a word no dispatch entry matches, or a matched entry
/// whose operation is not implemented.
pub open spec fn step_fault_of(mem: Mmu, regs: Seq<u64>) -> Option<Fault> {
    let pc = regs[reg_idx(Register::Pc)];
    if !mem.in_bounds(pc as nat, 4) {
        Some(Fault::Bounds)
    } else if !mem.range_has(pc as nat, 4, PERM_READ) {
        Some(Fault::Permission)
    } else {
        let w = le_word(
            mem.memory@[pc as int],
            mem.memory@[pc + 1],
            mem.memory@[pc + 2],
            mem.memory@[pc + 3],
        );
        match first_match(spec_instructions(), w) {
            Option::None => Some(Fault::UnknownInstruction(w, pc)),
            Option::Some(e) => match e.operation {
                Operation::Add => Some(Fault::UnimplementedInstruction(w, pc)),
                Operation::Jal => None,
            },
        }
    }
}

/// The register state after one successful (non-faulting) step: the only
/// implemented operation is the jump-and-link, which links `pc + 4` into
/// `rd` and writes its destination into the program counter; the engine
/// then advances the program counter by one instruction width only if the
/// handler left it at the pre-execution address.
pub open spec fn step_regs_of(mem: Mmu, regs: Seq<u64>) -> Seq<u64> {
    let pc = regs[reg_idx(Register::Pc)];
    let w = le_word(
        mem.memory@[pc as int],
        mem.memory@[pc + 1],
        mem.memory@[pc + 2],
        mem.memory@[pc + 3],
    );
    let after = regs.update(rd_of(w), (pc + INSTRUCTION_SZ) as u64).update(
        reg_idx(Register::Pc),
        jal_dest(w, pc),
    );
    if jal_dest(w, pc) == pc {
        after.update(reg_idx(Register::Pc), (pc + INSTRUCTION_SZ) as u64)
    } else {
        after
    }
}

/// The register state after as many as `n` steps: stops early at the first
/// faulting state and stays there.
pub open spec fn run_regs_of(mem: Mmu, regs: Seq<u64>, n: nat) -> Seq<u64>
    decreases n,
{
    if n == 0 || step_fault_of(mem, regs) is Some {
        regs
    } else {
        run_regs_of(mem, step_regs_of(mem, regs), (n - 1) as nat)
    }
}

/// The fault, if any, that running as many as `n` steps from `regs` hits.
pub open spec fn run_fault_of(mem: Mmu, regs: Seq<u64>, n: nat) -> Option<Fault>
    decreases n,
{
    if n == 0 {
        None
    } else if step_fault_of(mem, regs) is Some {
        step_fault_of(mem, regs)
    } else {
        run_fault_of(mem, step_regs_of(mem, regs), (n - 1) as nat)
    }
}

/// The emulator: one addressable memory and one register file, exclusively
/// owned and never shared.
pub struct Emu {
    pub memory: Mmu,
    pub processor: Processor,
}

impl Emu {
    /// The memory and its permission array agree in length.
    pub open spec fn wf(self) -> bool {
        self.memory.wf()
    }

    /// The current program counter.
    pub open spec fn pc(self) -> u64 {
        self.processor.spec_reg(Register::Pc)
    }

    /// Whether the next step from the current state faults, and how.
    pub open spec fn step_fault(self) -> Option<Fault> {
        step_fault_of(self.memory, self.processor.registers@)
    }

    /// Creates an emulator with `mem_size` bytes of fresh memory and the
    /// program counter seeded with `entrypoint`.
    pub fn new(mem_size: usize, entrypoint: u64) -> (e: Emu)
        ensures
            e.wf(),
            e.memory.size() == mem_size,
            forall|i: int| 0 <= i < mem_size ==> e.memory.memory@[i] == 0u8,
            forall|i: int|
                0 <= i < mem_size ==> e.memory.perm_at(i) == (
                crate::mmu::PERM_WRITE | crate::mmu::PERM_RAW),
            forall|i: int| 0 <= i < 32 ==> e.processor.registers@[i] == 0u64,
            e.pc() == entrypoint,
    {
        Emu { memory: Mmu::new(mem_size), processor: Processor::new(entrypoint) }
    }

    /// Fetches the 32-bit little-endian word at `addr`, under the memory's
    /// read-permission and bounds rules.
    pub fn fetch(&self, addr: VirtAddr) -> (r: Result<u32, Fault>)
        requires
            self.wf(),
        ensures
            r is Ok <==> self.memory.in_bounds(addr.0 as nat, 4) && self.memory.range_has(
                addr.0 as nat,
                4,
                PERM_READ,
            ),
            r == Err::<u32, Fault>(Fault::Bounds) <==> !self.memory.in_bounds(addr.0 as nat, 4),
            r == Err::<u32, Fault>(Fault::Permission) <==> self.memory.in_bounds(addr.0 as nat, 4)
                && !self.memory.range_has(addr.0 as nat, 4, PERM_READ),
            r matches Ok(w) ==> w == le_word(
                self.memory.memory@[addr.0 as int],
                self.memory.memory@[addr.0 + 1],
                self.memory.memory@[addr.0 + 2],
                self.memory.memory@[addr.0 + 3],
            ),
    {
        match self.memory.read(addr, 4) {
            Err(f) => Err(f),
            Ok(bytes) => {
                let w = (bytes[0] as u32) | ((bytes[1] as u32) << 8) | ((bytes[2] as u32) << 16) | (
                (bytes[3] as u32) << 24);
                Ok(w)
            },
        }
    }

    /// Executes one fetch-decode-execute-advance step.
    ///
    /// A fetch fault, a word no dispatch entry matches, or a matched entry
    /// whose operation is not implemented is returned as the corresponding
    /// fault, with the whole state untouched; a successful step leaves the
    /// memory alone and takes the register file through [`step_regs_of`].
    pub fn tick(&mut self) -> (r: Result<(), Fault>)
        requires
            old(self).wf(),
        ensures
            final(self).wf(),
            final(self).memory == old(self).memory,
            match step_fault_of(old(self).memory, old(self).processor.registers@) {
                Option::Some(f) => r == Err::<(), Fault>(f) && *final(self) == *old(self),
                Option::None => r is Ok && final(self).processor.registers@ == step_regs_of(
                    old(self).memory,
                    old(self).processor.registers@,
                ),
            },
    {
        let tick_pc = self.processor.reg(Register::Pc);
        proof {
            vstd::std_specs::vec::axiom_spec_len(&self.memory.memory);
        }
        if tick_pc > (usize::MAX as u64) {
            return Err(Fault::Bounds);
        }
        let instr_w = match self.fetch(VirtAddr(tick_pc as usize)) {
            Ok(w) => w,
            Err(f) => {
                return Err(f);
            },
        };
        let instr = match Processor::decode(instr_w) {
            Some(ix) => ix,
            None => {
                return Err(Fault::UnknownInstruction(instr_w, tick_pc));
            },
        };
        proof {
            assert(self.memory.in_bounds(tick_pc as nat, 4));
            assert(self.memory.size() <= usize::MAX as nat);
            assert(tick_pc as int + 4 <= u64::MAX as int);
        }
        let next_pc = match instr.operation {
            Operation::Add => {
                match op_add(&mut self.processor, instr_w, tick_pc) {
                    Err(f) => {
                        return Err(f);
                    },
                    Ok(d) => d,
                }
            },
            Operation::Jal => {
                let d = op_jal(&mut self.processor, instr_w, tick_pc);
                proof {
                    let base = old(self).processor.registers@;
                    assert(base.len() == 33);
                    assert(((instr_w >> 7) & 0x1f) < 32) by (bit_vector);
                    let after = base.update(
                        rd_of(instr_w),
                        (tick_pc + INSTRUCTION_SZ) as u64,
                    ).update(reg_idx(Register::Pc), jal_dest(instr_w, tick_pc));
                    assert(self.processor.registers@ == after);
                    assert(after.index(reg_idx(Register::Pc)) == jal_dest(instr_w, tick_pc));
                    assert(self.processor.spec_reg(Register::Pc) == jal_dest(instr_w, tick_pc));
                }
                d
            },
        };
        if tick_pc == next_pc {
            self.processor.inc_pc();
        }
        Ok(())
    }

    /// Runs steps until a fault or until `max_steps` steps have executed.
    ///
    /// The memory is never changed (the only implemented operation touches
    /// registers alone). On a fault the machine is left exactly in the
    /// faulting state, so its next step would report the same fault again.
    pub fn run(&mut self, max_steps: u64) -> (r: Result<(), Fault>)
        requires
            old(self).wf(),
        ensures
            final(self).wf(),
            final(self).memory == old(self).memory,
            final(self).processor.registers@ == run_regs_of(
                old(self).memory,
                old(self).processor.registers@,
                max_steps as nat,
            ),
            r == match run_fault_of(
                old(self).memory,
                old(self).processor.registers@,
                max_steps as nat,
            ) {
                Option::Some(f) => Err::<(), Fault>(f),
                Option::None => Ok::<(), Fault>(()),
            },
            r matches Err(f) ==> final(self).step_fault() == Some(f),
    {
        let ghost mem0 = self.memory;
        let ghost regs0 = self.processor.registers@;
        let mut steps: u64 = 0;
        while steps < max_steps
            invariant
                self.wf(),
                self.memory == mem0,
                mem0 == old(self).memory,
                regs0 == old(self).processor.registers@,
                steps <= max_steps,
                run_fault_of(mem0, regs0, steps as nat) is None,
                self.processor.registers@ == run_regs_of(mem0, regs0, steps as nat),
            decreases max_steps - steps,
        {
            match self.tick() {
                Ok(_u) => {
                    proof {
                        lemma_run_extend(mem0, regs0, steps as nat);
                    }
                    steps = steps + 1;
                },
                Err(f) => {
                    proof {
                        lemma_run_stuck(mem0, regs0, steps as nat, max_steps as nat);
                    }
                    return Err(f);
                },
            }
        }
        Ok(())
    }
}

impl Emu {
    /// Loads one segment: writes `data` at `vaddr` through the ordinary
    /// write path, then overwrites the permissions of the segment's bytes
    /// with the low EXEC|WRITE|READ bits of `flags`, so loaded bytes are
    /// immediately as readable and executable as the segment demands,
    /// without needing a prior write to clear their virgin state.
    pub fn load_section(&mut self, vaddr: VirtAddr, data: &[u8], flags: u32) -> (r: Result<
        (),
        Fault,
    >)
        requires
            old(self).wf(),
        ensures
            final(self).wf(),
            final(self).memory.size() == old(self).memory.size(),
            final(self).processor == old(self).processor,
            r is Ok <==> old(self).memory.in_bounds(vaddr.0 as nat, data@.len()) && old(
                self,
            ).memory.range_has(vaddr.0 as nat, data@.len(), PERM_WRITE),
            r == Err::<(), Fault>(Fault::Bounds) <==> !old(self).memory.in_bounds(
                vaddr.0 as nat,
                data@.len(),
            ),
            r == Err::<(), Fault>(Fault::Permission) <==> old(self).memory.in_bounds(
                vaddr.0 as nat,
                data@.len(),
            ) && !old(self).memory.range_has(vaddr.0 as nat, data@.len(), PERM_WRITE),
            !(r is Ok) ==> *final(self) == *old(self),
            r is Ok ==> forall|i: int|
                vaddr.0 <= i < vaddr.0 + data@.len() ==> final(self).memory.memory@[i] == data@[i
                    - vaddr.0],
            r is Ok ==> forall|i: int|
                0 <= i < old(self).memory.size() && !(vaddr.0 <= i < vaddr.0 + data@.len())
                    ==> final(self).memory.memory@[i] == old(self).memory.memory@[i],
            r is Ok ==> forall|i: int|
                vaddr.0 <= i < vaddr.0 + data@.len() ==> final(self).memory.perm_at(i) == (flags
                    & 0x7) as u8,
            r is Ok ==> forall|i: int|
                0 <= i < old(self).memory.size() && !(vaddr.0 <= i < vaddr.0 + data@.len())
                    ==> final(self).memory.perm_at(i) == old(self).memory.perm_at(i),
    {
        proof {
            assert((flags & 0x7) < 256) by (bit_vector);
        }
        let perms = (flags & 0x7) as u8;
        match self.memory.write_from(vaddr, data) {
            Err(f) => Err(f),
            Ok(_u) => {
                match self.memory.set_perms(vaddr, data.len(), Perm(perms)) {
                    Ok(_v) => Ok(()),
                    Err(f) => Err(f),
                }
            },
        }
    }
}

/// Executing a jump-and-link fetched at program counter `p` with
/// immediate `+8` and link register `ra` leaves `ra` holding `p + 4`, the
/// program counter at the destination `p + 8`, and every other register
/// untouched: because the handler redirected control, the engine does not
/// advance the program counter again on top of the jump.
pub proof fn lemma_jump_and_link(mem: Mmu, regs: Seq<u64>, p: u64)
    requires
        regs.len() == 33,
        regs[reg_idx(Register::Pc)] == p,
        step_fault_of(mem, regs) is None,
        ({
            let w = le_word(
                mem.memory@[p as int],
                mem.memory@[p + 1],
                mem.memory@[p + 2],
                mem.memory@[p + 3],
            );
            &&& rd_of(w) == reg_idx(Register::Ra)
            &&& sign_extend(j_imm_raw(w), 21) == 8
        }),
        p + 8 <= u64::MAX,
    ensures
        step_regs_of(mem, regs) == regs.update(reg_idx(Register::Ra), (p + 4) as u64).update(
            reg_idx(Register::Pc),
            (p + 8) as u64,
        ),
        step_regs_of(mem, regs)[reg_idx(Register::Ra)] == p + 4,
        step_regs_of(mem, regs)[reg_idx(Register::Pc)] == p + 8,
{
    let w = le_word(
        mem.memory@[p as int],
        mem.memory@[p + 1],
        mem.memory@[p + 2],
        mem.memory@[p + 3],
    );
    assert(jal_dest(w, p) == (p + 8) as u64);
    assert(jal_dest(w, p) != p);
    let after = regs.update(reg_idx(Register::Ra), (p + 4) as u64).update(
        reg_idx(Register::Pc),
        (p + 8) as u64,
    );
    assert(step_regs_of(mem, regs) == after);
    assert(after[reg_idx(Register::Ra)] == p + 4);
    assert(after[reg_idx(Register::Pc)] == p + 8);
}

/// Running one more step after `n` fault-free steps executes it from the
/// state the first `n` steps reached.
proof fn lemma_run_extend(mem: Mmu, regs: Seq<u64>, n: nat)
    requires
        run_fault_of(mem, regs, n) is None,
        step_fault_of(mem, run_regs_of(mem, regs, n)) is None,
    ensures
        run_regs_of(mem, regs, n + 1) == step_regs_of(mem, run_regs_of(mem, regs, n)),
        run_fault_of(mem, regs, n + 1) is None,
    decreases n,
{
    if n == 0 {
        assert(run_regs_of(mem, regs, 0) == regs);
        assert(step_fault_of(mem, regs) is None);
        assert(run_fault_of(mem, step_regs_of(mem, regs), 0) is None);
        assert(run_regs_of(mem, step_regs_of(mem, regs), 0) == step_regs_of(mem, regs));
        assert(run_regs_of(mem, regs, 1) == run_regs_of(mem, step_regs_of(mem, regs), 0));
        assert(run_fault_of(mem, regs, 1) is None);
    } else {
        let rest = step_regs_of(mem, regs);
        assert(step_fault_of(mem, regs) is None);
        assert(run_fault_of(mem, rest, (n - 1) as nat) is None);
        assert(run_regs_of(mem, regs, n) == run_regs_of(mem, rest, (n - 1) as nat));
        lemma_run_extend(mem, rest, (n - 1) as nat);
        assert(((n - 1) as nat) + 1 == n);
        assert(run_regs_of(mem, rest, n) == step_regs_of(mem, run_regs_of(mem, rest, (n - 1) as nat)));
        assert(run_regs_of(mem, regs, n + 1) == run_regs_of(mem, rest, n));
        assert(run_fault_of(mem, regs, n + 1) == run_fault_of(mem, rest, n));
    }
}

/// Once `n` fault-free steps reach a state whose next step faults, any
/// longer run stops in that same state with that same fault.
proof fn lemma_run_stuck(mem: Mmu, regs: Seq<u64>, n: nat, m: nat)
    requires
        n < m,
        run_fault_of(mem, regs, n) is None,
        step_fault_of(mem, run_regs_of(mem, regs, n)) is Some,
    ensures
        run_regs_of(mem, regs, m) == run_regs_of(mem, regs, n),
        run_fault_of(mem, regs, m) == step_fault_of(mem, run_regs_of(mem, regs, n)),
    decreases n,
{
    if n == 0 {
        lemma_run_stays_stuck(mem, regs, m);
    } else {
        lemma_run_stuck(mem, step_regs_of(mem, regs), (n - 1) as nat, (m - 1) as nat);
    }
}

/// A state whose next step faults is left untouched by a run of any
/// length, which reports that fault.
proof fn lemma_run_stays_stuck(mem: Mmu, regs: Seq<u64>, m: nat)
    requires
        step_fault_of(mem, regs) is Some,
    ensures
        run_regs_of(mem, regs, m) == regs,
        run_fault_of(mem, regs, m) == if m == 0 {
            None::<Fault>
        } else {
            step_fault_of(mem, regs)
        },
{
}

} // verus!
