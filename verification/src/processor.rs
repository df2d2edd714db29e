use vstd::prelude::*;
use vstd::arithmetic::power2::{pow2, lemma2_to64};
use vstd::array::ArrayAdditionalExecFns;
use crate::Fault;

verus! {

broadcast use vstd::array::group_array_axioms;

/// Size in bytes of the instruction words this machine executes. The ISA
/// family allows other widths, but only the common 32-bit encoding is
/// handled here.
pub const INSTRUCTION_SZ: u64 = 4;

/// Masks an instruction's opcode field.
pub const MASK_OP: u32 = 0x7f;

/// Masks an instruction's opcode, funct3 and funct7 fields.
pub const MASK_OP_FN3_FN7: u32 = 0xfe00707f;

/// One of the machine's registers: the 32 general-purpose registers plus
/// the program counter, which is addressed through the same register file
/// as any other register.
#[derive(Debug, Copy, Clone, PartialEq, Eq, Structural)]
pub enum Register {
    Zero,
    Ra,
    Sp,
    Gp,
    Tp,
    T0,
    T1,
    T2,
    S0,
    S1,
    A0,
    A1,
    A2,
    A3,
    A4,
    A5,
    A6,
    A7,
    S2,
    S3,
    S4,
    S5,
    S6,
    S7,
    S8,
    S9,
    S10,
    S11,
    T3,
    T4,
    T5,
    T6,
    Pc,
}

/// The slot of `r` in the register file.
pub open spec fn reg_idx(r: Register) -> int {
    match r {
        Register::Zero => 0,
        Register::Ra => 1,
        Register::Sp => 2,
        Register::Gp => 3,
        Register::Tp => 4,
        Register::T0 => 5,
        Register::T1 => 6,
        Register::T2 => 7,
        Register::S0 => 8,
        Register::S1 => 9,
        Register::A0 => 10,
        Register::A1 => 11,
        Register::A2 => 12,
        Register::A3 => 13,
        Register::A4 => 14,
        Register::A5 => 15,
        Register::A6 => 16,
        Register::A7 => 17,
        Register::S2 => 18,
        Register::S3 => 19,
        Register::S4 => 20,
        Register::S5 => 21,
        Register::S6 => 22,
        Register::S7 => 23,
        Register::S8 => 24,
        Register::S9 => 25,
        Register::S10 => 26,
        Register::S11 => 27,
        Register::T3 => 28,
        Register::T4 => 29,
        Register::T5 => 30,
        Register::T6 => 31,
        Register::Pc => 32,
    }
}

impl Register {
    /// The register named by a register file slot; a safe, bounds-checked
    /// mapping in place of any raw reinterpretation of the index.
    pub fn from(v: u32) -> (r: Register)
        requires
            v < 33,
        ensures
            reg_idx(r) == v as int,
    {
        match v {
            0 => Register::Zero,
            1 => Register::Ra,
            2 => Register::Sp,
            3 => Register::Gp,
            4 => Register::Tp,
            5 => Register::T0,
            6 => Register::T1,
            7 => Register::T2,
            8 => Register::S0,
            9 => Register::S1,
            10 => Register::A0,
            11 => Register::A1,
            12 => Register::A2,
            13 => Register::A3,
            14 => Register::A4,
            15 => Register::A5,
            16 => Register::A6,
            17 => Register::A7,
            18 => Register::S2,
            19 => Register::S3,
            20 => Register::S4,
            21 => Register::S5,
            22 => Register::S6,
            23 => Register::S7,
            24 => Register::S8,
            25 => Register::S9,
            26 => Register::S10,
            27 => Register::S11,
            28 => Register::T3,
            29 => Register::T4,
            30 => Register::T5,
            31 => Register::T6,
            _ => Register::Pc,
        }
    }

    /// The register file slot of this register.
    pub fn index(self) -> (i: usize)
        ensures
            i == reg_idx(self),
    {
        match self {
            Register::Zero => 0,
            Register::Ra => 1,
            Register::Sp => 2,
            Register::Gp => 3,
            Register::Tp => 4,
            Register::T0 => 5,
            Register::T1 => 6,
            Register::T2 => 7,
            Register::S0 => 8,
            Register::S1 => 9,
            Register::A0 => 10,
            Register::A1 => 11,
            Register::A2 => 12,
            Register::A3 => 13,
            Register::A4 => 14,
            Register::A5 => 15,
            Register::A6 => 16,
            Register::A7 => 17,
            Register::S2 => 18,
            Register::S3 => 19,
            Register::S4 => 20,
            Register::S5 => 21,
            Register::S6 => 22,
            Register::S7 => 23,
            Register::S8 => 24,
            Register::S9 => 25,
            Register::S10 => 26,
            Register::S11 => 27,
            Register::T3 => 28,
            Register::T4 => 29,
            Register::T5 => 30,
            Register::T6 => 31,
            Register::Pc => 32,
        }
    }
}

/// The register file: the 32 general-purpose registers followed by the
/// program counter in slot 32.
pub struct Processor {
    pub registers: [u64; 33],
}

impl Processor {
    /// The value register `r` holds.
    pub open spec fn spec_reg(self, r: Register) -> u64 {
        self.registers@[reg_idx(r)]
    }

    /// Creates a register file with every register zeroed except the
    /// program counter, which is seeded with `entrypoint`.
    pub fn new(entrypoint: u64) -> (p: Processor)
        ensures
            forall|i: int| 0 <= i < 32 ==> p.registers@[i] == 0u64,
            p.spec_reg(Register::Pc) == entrypoint,
    {
        let mut processor = Processor { registers: [0u64; 33] };
        processor.set_reg(Register::Pc, entrypoint);
        processor
    }

    /// Reads register `reg`.
    pub fn reg(&self, reg: Register) -> (v: u64)
        ensures
            v == self.spec_reg(reg),
    {
        self.registers[reg.index()]
    }

    /// Writes `val` to register `reg`.
    pub fn set_reg(&mut self, reg: Register, val: u64)
        ensures
            final(self).registers@ == old(self).registers@.update(reg_idx(reg), val),
    {
        let i = reg.index();
        self.registers[i] = val;
    }

    /// Advances the program counter by one instruction width.
    pub fn inc_pc(&mut self)
        requires
            old(self).spec_reg(Register::Pc) + INSTRUCTION_SZ <= u64::MAX,
        ensures
            final(self).registers@ == old(self).registers@.update(
                reg_idx(Register::Pc),
                (old(self).spec_reg(Register::Pc) + INSTRUCTION_SZ) as u64,
            ),
    {
        let pc = self.reg(Register::Pc);
        self.set_reg(Register::Pc, pc + INSTRUCTION_SZ);
    }
}

/// The closed set of operations the machine implements; each dispatch
/// entry names one of them, and the execution engine resolves it by a
/// single match.
#[derive(Debug, Copy, Clone, PartialEq, Eq, Structural)]
pub enum Operation {
    Add,
    Jal,
}

/// One dispatch entry: a word matches it when `word & mask == result`;
/// `operation` is what the match executes, `name` is for diagnostics.
#[derive(Debug, Copy, Clone)]
pub struct Instruction {
    /// A mask that can be AND'ed with the instruction word to keep only
    /// the fields that matter for identifying this instruction.
    pub mask: u32,
    /// What AND'ing the word with the mask must produce for a positive
    /// match.
    pub result: u32,
    /// The operation that will emulate this instruction.
    pub operation: Operation,
    /// Name of the instruction.
    pub name: &'static str,
}

/// A word matches a dispatch entry when masking it leaves exactly the
/// entry's expected opcode bits.
pub open spec fn entry_matches(e: Instruction, w: u32) -> bool {
    (w & e.mask) == e.result
}

/// The first entry of `tbl`, in table order, that `w` matches.
pub open spec fn first_match(tbl: Seq<Instruction>, w: u32) -> Option<Instruction>
    decreases tbl.len(),
{
    if tbl.len() == 0 {
        None
    } else if entry_matches(tbl[0], w) {
        Some(tbl[0])
    } else {
        first_match(tbl.drop_first(), w)
    }
}

/// The machine's dispatch table, in priority order.
pub open spec fn spec_instructions() -> Seq<Instruction> {
    seq![
        Instruction { mask: MASK_OP_FN3_FN7, result: 0x33, operation: Operation::Add, name: "ADD" },
        Instruction { mask: MASK_OP, result: 0x6f, operation: Operation::Jal, name: "JAL" },
    ]
}

/// First match wins: if `w` matches the entry at `i` and no earlier entry,
/// the scan resolves `w` to that entry, whatever later entries (even ones
/// that `w` also matches) the table holds.
pub proof fn lemma_dispatch_first_match(tbl: Seq<Instruction>, w: u32, i: int)
    requires
        0 <= i < tbl.len(),
        entry_matches(tbl[i], w),
        forall|k: int| 0 <= k < i ==> !entry_matches(tbl[k], w),
    ensures
        first_match(tbl, w) == Some(tbl[i]),
    decreases i,
{
    if i > 0 {
        lemma_dispatch_first_match(tbl.drop_first(), w, i - 1);
        assert(tbl.drop_first()[i - 1] == tbl[i]);
        assert(forall|k: int|
            0 <= k < i - 1 ==> tbl.drop_first()[k] == tbl[k + 1] && !entry_matches(
                tbl.drop_first()[k],
                w,
            ));
    }
}

/// A word that matches no entry of the table resolves to nothing.
pub proof fn lemma_no_match(tbl: Seq<Instruction>, w: u32)
    requires
        forall|k: int| 0 <= k < tbl.len() ==> !entry_matches(tbl[k], w),
    ensures
        first_match(tbl, w) is None,
    decreases tbl.len(),
{
    if tbl.len() > 0 {
        assert(forall|k: int|
            0 <= k < tbl.len() - 1 ==> tbl.drop_first()[k] == tbl[k + 1] && !entry_matches(
                tbl.drop_first()[k],
                w,
            ));
        lemma_no_match(tbl.drop_first(), w);
    }
}

impl Processor {
    /// Builds the dispatch table, in priority order.
    pub fn instructions() -> (t: Vec<Instruction>)
        ensures
            t@ == spec_instructions(),
    {
        let mut t: Vec<Instruction> = Vec::new();
        t.push(
            Instruction {
                mask: MASK_OP_FN3_FN7,
                result: 0x33,
                operation: Operation::Add,
                name: "ADD",
            },
        );
        t.push(Instruction { mask: MASK_OP, result: 0x6f, operation: Operation::Jal, name: "JAL" });
        proof {
            assert(t@ =~= spec_instructions());
        }
        t
    }

    /// Scans `table` in order and returns the first entry that `word`
    /// matches, or nothing when the scan exhausts the table.
    pub fn decode_in(table: &Vec<Instruction>, word: u32) -> (r: Option<Instruction>)
        ensures
            r == first_match(table@, word),
    {
        let n = table.len();
        let mut i: usize = 0;
        while i < n
            invariant
                i <= n,
                n == table@.len(),
                forall|k: int| 0 <= k < i ==> !entry_matches(table@[k], word),
            decreases n - i,
        {
            let ix = table[i];
            if (word & ix.mask) == ix.result {
                proof {
                    lemma_dispatch_first_match(table@, word, i as int);
                }
                return Some(ix);
            }
            i = i + 1;
        }
        proof {
            lemma_no_match(table@, word);
        }
        None
    }

    /// Resolves a raw word against the machine's own dispatch table.
    pub fn decode(word: u32) -> (r: Option<Instruction>)
        ensures
            r == first_match(spec_instructions(), word),
    {
        let table = Self::instructions();
        Self::decode_in(&table, word)
    }
}

/// The mathematical value of a `width`-bit two's-complement field `v`.
pub open spec fn sign_extend(v: u32, width: nat) -> int
    recommends
        0 < width <= 32,
{
    if (v as int) < pow2((width - 1) as nat) {
        v as int
    } else {
        v as int - pow2(width)
    }
}

/// The raw 12-bit immediate field of an I-format word.
pub open spec fn i_imm_raw(w: u32) -> u32 {
    w >> 20
}

/// The raw 12-bit immediate of an S-format word, reassembled from its two
/// fragments.
pub open spec fn s_imm_raw(w: u32) -> u32 {
    ((w >> 25) << 5) | ((w >> 7) & 0x1f)
}

/// The raw 13-bit immediate of a B-format word (bit 0 always zero),
/// reassembled from its four fragments with bit 12 as the sign bit.
pub open spec fn b_imm_raw(w: u32) -> u32 {
    (((w >> 31) & 1) << 12) | (((w >> 7) & 1) << 11) | (((w >> 25) & 0x3f) << 5) | (((w >> 8)
        & 0xf) << 1)
}

/// The raw immediate of a U-format word: the top 20 bits kept in place,
/// the low 12 bits zeroed.
pub open spec fn u_imm_raw(w: u32) -> u32 {
    w & 0xfffff000
}

/// The raw 21-bit immediate of a J-format word (bit 0 always zero),
/// reassembled from its four fragments with bit 20 as the sign bit.
pub open spec fn j_imm_raw(w: u32) -> u32 {
    (((w >> 31) & 1) << 20) | (((w >> 12) & 0xff) << 12) | (((w >> 20) & 1) << 11) | (((w >> 21)
        & 0x3ff) << 1)
}

/// The register file slot encoded in the `rd` field of a word.
pub open spec fn rd_of(w: u32) -> int {
    ((w >> 7) & 0x1f) as int
}

/// The register file slot encoded in the `rs1` field of a word.
pub open spec fn rs1_of(w: u32) -> int {
    ((w >> 15) & 0x1f) as int
}

/// The register file slot encoded in the `rs2` field of a word.
pub open spec fn rs2_of(w: u32) -> int {
    ((w >> 20) & 0x1f) as int
}

///  31                    25  24    20  19    15  14       12  11    7  6         0
///  -------------------------------------------------------------------------------
/// |         funct7         |   rs2   |   rs1   |   funct3   |   rd   |   opcode   |
///  -------------------------------------------------------------------------------
pub struct InstrR {
    pub funct7: u32,
    pub rs2: Register,
    pub rs1: Register,
    pub funct3: u32,
    pub rd: Register,
}

impl InstrR {
    pub fn from(instr: u32) -> (r: InstrR)
        ensures
            r.funct7 == (instr >> 25) & 0x7f,
            reg_idx(r.rs2) == rs2_of(instr),
            reg_idx(r.rs1) == rs1_of(instr),
            r.funct3 == (instr >> 12) & 0x7,
            reg_idx(r.rd) == rd_of(instr),
    {
        proof {
            assert(((instr >> 20) & 0x1f) < 33 && ((instr >> 15) & 0x1f) < 33 && ((instr >> 7)
                & 0x1f) < 33) by (bit_vector);
        }
        InstrR {
            funct7: (instr >> 25) & 0x7f,
            rs2: Register::from((instr >> 20) & 0x1f),
            rs1: Register::from((instr >> 15) & 0x1f),
            funct3: (instr >> 12) & 0x7,
            rd: Register::from((instr >> 7) & 0x1f),
        }
    }
}

///  31                              20  19    15  14       12  11    7  6         0
///  -------------------------------------------------------------------------------
/// |              imm110              |   rs1   |   funct3   |   rd   |   opcode   |
///  -------------------------------------------------------------------------------
pub struct InstrI {
    pub imm: i32,
    pub rs1: Register,
    pub funct3: u32,
    pub rd: Register,
}

impl InstrI {
    pub fn from(instr: u32) -> (r: InstrI)
        ensures
            r.imm as int == sign_extend(i_imm_raw(instr), 12),
            reg_idx(r.rs1) == rs1_of(instr),
            r.funct3 == (instr >> 12) & 0x7,
            reg_idx(r.rd) == rd_of(instr),
    {
        let raw = instr >> 20;
        proof {
            lemma2_to64();
            assert(raw < 0x1000) by (bit_vector)
                requires
                    raw == instr >> 20,
            ;
            assert(((instr >> 15) & 0x1f) < 33 && ((instr >> 7) & 0x1f) < 33) by (bit_vector);
        }
        let imm: i32 = if raw < 0x800 {
            raw as i32
        } else {
            (raw as i32) - 0x1000
        };
        InstrI {
            imm,
            rs1: Register::from((instr >> 15) & 0x1f),
            funct3: (instr >> 12) & 0x7,
            rd: Register::from((instr >> 7) & 0x1f),
        }
    }
}

///  31                    25  24    20  19    15  14       12  11    7  6         0
///  -------------------------------------------------------------------------------
/// |         imm115         |   rs2   |   rs1   |   funct3   |  imm4  |   opcode   |
///  -------------------------------------------------------------------------------
pub struct InstrS {
    pub imm: i32,
    pub rs2: Register,
    pub rs1: Register,
    pub funct3: u32,
}

impl InstrS {
    pub fn from(instr: u32) -> (r: InstrS)
        ensures
            r.imm as int == sign_extend(s_imm_raw(instr), 12),
            reg_idx(r.rs2) == rs2_of(instr),
            reg_idx(r.rs1) == rs1_of(instr),
            r.funct3 == (instr >> 12) & 0x7,
    {
        let imm115 = instr >> 25;
        let imm40 = (instr >> 7) & 0x1f;
        let raw = (imm115 << 5) | imm40;
        proof {
            lemma2_to64();
            assert(raw < 0x1000) by (bit_vector)
                requires
                    raw == ((instr >> 25) << 5) | ((instr >> 7) & 0x1f),
            ;
            assert(((instr >> 20) & 0x1f) < 33 && ((instr >> 15) & 0x1f) < 33) by (bit_vector);
        }
        let imm: i32 = if raw < 0x800 {
            raw as i32
        } else {
            (raw as i32) - 0x1000
        };
        InstrS {
            imm,
            rs2: Register::from((instr >> 20) & 0x1f),
            rs1: Register::from((instr >> 15) & 0x1f),
            funct3: (instr >> 12) & 0x7,
        }
    }
}

///       31     30        25  24    20  19    15  14       12  11     8      7     6        0
///  -----------------------------------------------------------------------------------------
/// |   imm12   |   imm105   |   rs2   |   rs1   |   funct3   |  imm40  |  imm11  |  opcode   |
///  -----------------------------------------------------------------------------------------
pub struct InstrB {
    pub imm: i32,
    pub rs2: Register,
    pub rs1: Register,
    pub funct3: u32,
}

impl InstrB {
    pub fn from(instr: u32) -> (r: InstrB)
        ensures
            r.imm as int == sign_extend(b_imm_raw(instr), 13),
            reg_idx(r.rs2) == rs2_of(instr),
            reg_idx(r.rs1) == rs1_of(instr),
            r.funct3 == (instr >> 12) & 0x7,
    {
        let imm11 = (instr >> 7) & 1;
        let imm41 = (instr >> 8) & 0xf;
        let imm105 = (instr >> 25) & 0x3f;
        let imm12 = (instr >> 31) & 1;
        let raw = (imm12 << 12) | (imm11 << 11) | (imm105 << 5) | (imm41 << 1);
        proof {
            lemma2_to64();
            assert(raw < 0x2000) by (bit_vector)
                requires
                    raw == ((((instr >> 31) & 1) << 12) | (((instr >> 7) & 1) << 11) | (((instr
                        >> 25) & 0x3f) << 5) | (((instr >> 8) & 0xf) << 1)),
            ;
            assert(((instr >> 20) & 0x1f) < 33 && ((instr >> 15) & 0x1f) < 33) by (bit_vector);
        }
        let imm: i32 = if raw < 0x1000 {
            raw as i32
        } else {
            (raw as i32) - 0x2000
        };
        InstrB {
            imm,
            rs2: Register::from((instr >> 20) & 0x1f),
            rs1: Register::from((instr >> 15) & 0x1f),
            funct3: (instr >> 12) & 0x7,
        }
    }
}

///  31                                                     12  11    7  6         0
///  -------------------------------------------------------------------------------
/// |                         imm3112                         |   rd   |   opcode   |
///  -------------------------------------------------------------------------------
#[derive(Debug)]
pub struct InstrU {
    pub imm: i32,
    pub rd: Register,
}

impl InstrU {
    pub fn from(instr: u32) -> (r: InstrU)
        ensures
            r.imm as int == sign_extend(u_imm_raw(instr), 32),
            reg_idx(r.rd) == rd_of(instr),
    {
        let raw = instr & 0xfffff000;
        proof {
            lemma2_to64();
            assert(((instr >> 7) & 0x1f) < 33) by (bit_vector);
        }
        let imm: i32 = if raw < 0x80000000 {
            raw as i32
        } else {
            ((raw as i64) - 0x100000000i64) as i32
        };
        InstrU { imm, rd: Register::from((instr >> 7) & 0x1f) }
    }
}

///       31     30        21     20    19                  12  11    7  6         0
///  -------------------------------------------------------------------------------
/// |   imm20   |   imm101   |  imm11  |        imm1912       |   rd   |   opcode   |
///  -------------------------------------------------------------------------------
#[derive(Debug)]
pub struct InstrJ {
    pub imm: i32,
    pub rd: Register,
}

impl InstrJ {
    pub fn from(instr: u32) -> (r: InstrJ)
        ensures
            r.imm as int == sign_extend(j_imm_raw(instr), 21),
            reg_idx(r.rd) == rd_of(instr),
    {
        let imm1912 = (instr >> 12) & 0xff;
        let imm11 = (instr >> 20) & 1;
        let imm101 = (instr >> 21) & 0x3ff;
        let imm20 = (instr >> 31) & 1;
        let raw = (imm20 << 20) | (imm1912 << 12) | (imm11 << 11) | (imm101 << 1);
        proof {
            lemma2_to64();
            assert(raw < 0x200000) by (bit_vector)
                requires
                    raw == ((((instr >> 31) & 1) << 20) | (((instr >> 12) & 0xff) << 12) | (((instr
                        >> 20) & 1) << 11) | (((instr >> 21) & 0x3ff) << 1)),
            ;
            assert(((instr >> 7) & 0x1f) < 33) by (bit_vector);
        }
        let imm: i32 = if raw < 0x100000 {
            raw as i32
        } else {
            (raw as i32) - 0x200000
        };
        InstrJ { imm, rd: Register::from((instr >> 7) & 0x1f) }
    }
}

/// `v` reduced into the range of a 64-bit machine word, two's-complement
/// style: out-of-range values wrap around once.
pub open spec fn wrap_u64(v: int) -> u64 {
    if v > u64::MAX {
        (v - 0x1_0000_0000_0000_0000) as u64
    } else if v < 0 {
        (v + 0x1_0000_0000_0000_0000) as u64
    } else {
        v as u64
    }
}

/// The destination of a jump-and-link word fetched at address `a`: `a`
/// plus the sign-extended J-format immediate, wrapping at the register
/// width.
pub open spec fn jal_dest(w: u32, a: u64) -> u64 {
    wrap_u64(a + sign_extend(j_imm_raw(w), 21))
}

/// ADD is recognised by the dispatch table but its operation is not
/// implemented: invoking the handler reports an unimplemented-instruction
/// fault carrying the word and its address, and touches nothing.
pub fn op_add(p: &mut Processor, word: u32, address: u64) -> (r: Result<u64, Fault>)
    ensures
        *final(p) == *old(p),
        r == Err::<u64, Fault>(Fault::UnimplementedInstruction(word, address)),
{
    Err(Fault::UnimplementedInstruction(word, address))
}

/// JAL: stores the address following the jump (`address + 4`) into `rd`,
/// then redirects control by writing `address` plus the sign-extended
/// J-format immediate into the program counter; returns the destination.
pub fn op_jal(p: &mut Processor, word: u32, address: u64) -> (dest: u64)
    requires
        address + INSTRUCTION_SZ <= u64::MAX,
    ensures
        dest == jal_dest(word, address),
        final(p).registers@ == old(p).registers@.update(
            rd_of(word),
            (address + INSTRUCTION_SZ) as u64,
        ).update(reg_idx(Register::Pc), jal_dest(word, address)),
{
    let instr = InstrJ::from(word);
    let dest = address.wrapping_add_signed(instr.imm as i64);
    p.set_reg(instr.rd, address + INSTRUCTION_SZ);
    p.set_reg(Register::Pc, dest);
    dest
}

} // verus!
