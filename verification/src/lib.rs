//! A byte-granular software CPU emulator for a RISC-V-like instruction
//! set: a flat addressable memory with per-byte permissions (including
//! lazy detection of reads from never-written bytes), pure bit-field
//! decoders for the six fixed-width instruction encodings, a
//! priority-ordered mask/value dispatch table, and a fetch-decode-execute
//! engine over a register file whose program counter is an ordinary
//! register slot.

pub mod emulator;
pub mod mmu;
pub mod processor;

use vstd::prelude::*;

verus! {

/// The ways a memory access or an execution step can fail.
///
/// Permission and bounds faults come from the memory subsystem; the two
/// instruction faults carry the offending word and the address it was
/// fetched from.
#[derive(Debug, Copy, Clone, PartialEq, Eq, Structural)]
pub enum Fault {
    /// Some byte in the accessed range lacks the required permission.
    Permission,
    /// The accessed range extends past the allocated memory size.
    Bounds,
    /// The fetched word matches no dispatch entry.
    UnknownInstruction(u32, u64),
    /// The fetched word matched an entry whose operation is not implemented.
    UnimplementedInstruction(u32, u64),
}

} // verus!
