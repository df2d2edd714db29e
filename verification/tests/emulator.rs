use rv_emu::Fault;
use rv_emu::emulator::Emu;
use rv_emu::mmu::{VirtAddr, PERM_EXEC, PERM_RAW, PERM_READ, PERM_WRITE};
use rv_emu::processor::{op_add, op_jal, Processor, Register};

// jal ra, +8
const JAL_RA_PLUS_8: u32 = 0x0080_00ef;

#[test]
fn new_emulator_seeds_entry_and_fresh_memory() {
    let emu = Emu::new(1024, 0x100);
    assert_eq!(emu.processor.reg(Register::Pc), 0x100);
    assert_eq!(emu.memory.memory.len(), 1024);
    assert!(emu.memory.permissions.iter().all(|p| p.0 == (PERM_WRITE | PERM_RAW)));
}

#[test]
fn fetch_assembles_little_endian_word() {
    let mut emu = Emu::new(64, 0);
    emu.memory.write_from(VirtAddr(0), &[0xef, 0x00, 0x80, 0x00]).unwrap();
    assert_eq!(emu.fetch(VirtAddr(0)).unwrap(), JAL_RA_PLUS_8);
}

#[test]
fn fetch_faults_out_of_bounds_and_on_raw_memory() {
    let emu = Emu::new(16, 0);
    assert_eq!(emu.fetch(VirtAddr(14)), Err(Fault::Bounds));
    assert_eq!(emu.fetch(VirtAddr(0)), Err(Fault::Permission));
}

#[test]
fn jal_handler_links_and_redirects() {
    let mut p = Processor::new(0x100);
    let dest = op_jal(&mut p, JAL_RA_PLUS_8, 0x100);
    assert_eq!(dest, 0x108);
    assert_eq!(p.reg(Register::Ra), 0x104);
    assert_eq!(p.reg(Register::Pc), 0x108);
}

#[test]
fn jal_handler_jumps_backward() {
    let mut p = Processor::new(0x100);
    // jal x0, -4
    let dest = op_jal(&mut p, 0xffdf_f06f, 0x100);
    assert_eq!(dest, 0xfc);
    assert_eq!(p.reg(Register::Pc), 0xfc);
    // the handler links unconditionally, even into the zero register:
    // keeping that register at zero is left to the individual handlers
    assert_eq!(p.reg(Register::Zero), 0x104);
}

#[test]
fn add_handler_reports_unimplemented() {
    let mut p = Processor::new(0);
    let before = p.registers;
    let r = op_add(&mut p, 0x0000_0033, 0x40);
    assert_eq!(r, Err(Fault::UnimplementedInstruction(0x0000_0033, 0x40)));
    assert_eq!(p.registers, before);
}

#[test]
fn tick_executes_jump_without_double_advance() {
    let mut emu = Emu::new(1024, 0);
    emu.load_section(VirtAddr(0), &JAL_RA_PLUS_8.to_le_bytes(), (PERM_READ | PERM_EXEC) as u32)
        .unwrap();
    emu.tick().unwrap();
    assert_eq!(emu.processor.reg(Register::Ra), 4);
    // the handler redirected control: the engine must not also advance
    assert_eq!(emu.processor.reg(Register::Pc), 8);
}

#[test]
fn tick_on_unknown_word_reports_and_mutates_nothing() {
    let mut emu = Emu::new(1024, 0);
    // an I-format arithmetic word: no dispatch entry matches it
    emu.load_section(VirtAddr(0), &0x0000_0013u32.to_le_bytes(), PERM_READ as u32).unwrap();
    let regs_before = emu.processor.registers;
    let mem_before = emu.memory.memory.clone();
    let r = emu.tick();
    assert_eq!(r, Err(Fault::UnknownInstruction(0x0000_0013, 0)));
    assert_eq!(emu.processor.registers, regs_before);
    assert_eq!(emu.memory.memory, mem_before);
}

#[test]
fn tick_on_add_word_reports_unimplemented() {
    let mut emu = Emu::new(1024, 0);
    emu.load_section(VirtAddr(0), &0x0000_0033u32.to_le_bytes(), PERM_READ as u32).unwrap();
    let r = emu.tick();
    assert_eq!(r, Err(Fault::UnimplementedInstruction(0x0000_0033, 0)));
    assert_eq!(emu.processor.reg(Register::Pc), 0);
}

#[test]
fn tick_fetch_fault_on_fresh_memory() {
    let mut emu = Emu::new(64, 0);
    assert_eq!(emu.tick(), Err(Fault::Permission));
    let mut far = Emu::new(64, 1000);
    assert_eq!(far.tick(), Err(Fault::Bounds));
}

#[test]
fn load_then_execute_leaves_pc_at_destination() {
    // load a segment of exactly one valid jump instruction at the entry
    // address, run one step: the program counter is the jump's destination
    let mut emu = Emu::new(0x1000, 0x100);
    emu.load_section(
        VirtAddr(0x100),
        &JAL_RA_PLUS_8.to_le_bytes(),
        (PERM_READ | PERM_EXEC) as u32,
    )
    .unwrap();
    let r = emu.run(1);
    assert_eq!(r, Ok(()));
    assert_eq!(emu.processor.reg(Register::Pc), 0x108);
}

#[test]
fn run_stops_at_first_fault() {
    let mut emu = Emu::new(0x1000, 0x100);
    emu.load_section(
        VirtAddr(0x100),
        &JAL_RA_PLUS_8.to_le_bytes(),
        (PERM_READ | PERM_EXEC) as u32,
    )
    .unwrap();
    // the jump lands on memory that was never loaded: the next fetch
    // faults and the machine halts there
    let r = emu.run(10);
    assert_eq!(r, Err(Fault::Permission));
    assert_eq!(emu.processor.reg(Register::Pc), 0x108);
    assert_eq!(emu.processor.reg(Register::Ra), 0x104);
}

#[test]
fn load_section_applies_the_requested_mask() {
    let mut emu = Emu::new(256, 0);
    emu.load_section(VirtAddr(16), &[1, 2, 3], (PERM_READ | PERM_WRITE | PERM_EXEC) as u32)
        .unwrap();
    assert!(emu.memory.permissions[16..19]
        .iter()
        .all(|p| p.0 == (PERM_READ | PERM_WRITE | PERM_EXEC)));
    assert_eq!(emu.memory.memory[16..19], [1, 2, 3]);
    // a segment mask without WRITE makes the span read-only afterwards
    let mut emu2 = Emu::new(256, 0);
    emu2.load_section(VirtAddr(0), &[9], PERM_READ as u32).unwrap();
    assert_eq!(emu2.memory.write_from(VirtAddr(0), &[1]), Err(Fault::Permission));
}

#[test]
fn load_section_out_of_bounds_faults() {
    let mut emu = Emu::new(8, 0);
    let r = emu.load_section(VirtAddr(6), &[1, 2, 3], PERM_READ as u32);
    assert_eq!(r, Err(Fault::Bounds));
}
