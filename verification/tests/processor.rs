use rv_emu::processor::{
    InstrB, InstrI, InstrJ, InstrR, InstrS, InstrU, Instruction, Operation, Processor, Register,
    MASK_OP, MASK_OP_FN3_FN7,
};

#[test]
fn new_processor_seeds_pc_and_zeroes_the_rest() {
    let p = Processor::new(0xdead_beef);
    assert_eq!(p.reg(Register::Pc), 0xdead_beef);
    assert_eq!(p.reg(Register::Zero), 0);
    assert_eq!(p.reg(Register::Ra), 0);
    assert_eq!(p.reg(Register::T6), 0);
}

#[test]
fn set_reg_then_reg_round_trip() {
    let mut p = Processor::new(0);
    p.set_reg(Register::A0, 1234);
    assert_eq!(p.reg(Register::A0), 1234);
    assert_eq!(p.reg(Register::A1), 0);
}

#[test]
fn inc_pc_advances_by_instruction_width() {
    let mut p = Processor::new(0x100);
    p.inc_pc();
    assert_eq!(p.reg(Register::Pc), 0x104);
}

#[test]
fn register_from_index_round_trips() {
    for v in 0..33u32 {
        let r = Register::from(v);
        assert_eq!(r.index(), v as usize);
    }
}

#[test]
fn decode_resolves_add_and_jal() {
    let add = Processor::decode(0x0000_0033).unwrap();
    assert_eq!(add.name, "ADD");
    assert_eq!(add.operation, Operation::Add);
    let jal = Processor::decode(0x0080_00ef).unwrap();
    assert_eq!(jal.name, "JAL");
    assert_eq!(jal.operation, Operation::Jal);
}

#[test]
fn decode_unknown_word_is_none() {
    // an ordinary I-format arithmetic word: matches no entry of the table
    assert!(Processor::decode(0x0000_0013).is_none());
    assert!(Processor::decode(0xffff_ffff).is_none());
}

#[test]
fn decode_first_match_wins_on_overlapping_masks() {
    // two entries whose masks overlap so that 0x6f matches both: the scan
    // must return the earlier-registered entry
    let table = vec![
        Instruction { mask: MASK_OP, result: 0x6f, operation: Operation::Add, name: "FIRST" },
        Instruction { mask: MASK_OP, result: 0x6f, operation: Operation::Jal, name: "SECOND" },
    ];
    let hit = Processor::decode_in(&table, 0x0000_006f).unwrap();
    assert_eq!(hit.name, "FIRST");
    assert_eq!(hit.operation, Operation::Add);
}

#[test]
fn decode_in_scans_in_table_order() {
    // the narrow entry stands first, so a word matching only the broad one
    // still resolves, and a word matching the narrow one takes it
    let table = vec![
        Instruction {
            mask: MASK_OP_FN3_FN7,
            result: 0x33,
            operation: Operation::Add,
            name: "NARROW",
        },
        Instruction { mask: MASK_OP, result: 0x33, operation: Operation::Jal, name: "BROAD" },
    ];
    assert_eq!(Processor::decode_in(&table, 0x0000_0033).unwrap().name, "NARROW");
    // funct7 bits set: fails the narrow mask, caught by the broad one
    assert_eq!(Processor::decode_in(&table, 0x4000_0033).unwrap().name, "BROAD");
}

#[test]
fn i_format_sign_extension() {
    // addi x0, x0, -1
    assert_eq!(InstrI::from(0xfff0_0013).imm, -1);
    // maximum positive immediate
    assert_eq!(InstrI::from(0x7ff0_0013).imm, 2047);
    // minimum negative immediate
    assert_eq!(InstrI::from(0x8000_0013).imm, -2048);
    let i = InstrI::from(0x7ff0_8093); // addi x1, x1, 2047
    assert_eq!(i.rd.index(), 1);
    assert_eq!(i.rs1.index(), 1);
    assert_eq!(i.funct3, 0);
}

#[test]
fn s_format_sign_extension() {
    assert_eq!(InstrS::from(0xfe00_0fa3).imm, -1);
    assert_eq!(InstrS::from(0x7e00_0fa3).imm, 2047);
    assert_eq!(InstrS::from(0x8000_0023).imm, -2048);
}

#[test]
fn b_format_sign_extension() {
    // only bit 12 set: the most negative branch offset
    assert_eq!(InstrB::from(0x8000_0063).imm, -4096);
    // every non-sign bit set: the most positive branch offset
    assert_eq!(InstrB::from(0x7e00_0fe3).imm, 4094);
}

#[test]
fn u_format_keeps_top_bits_in_place() {
    assert_eq!(InstrU::from(0x8000_00b7).imm, i32::MIN);
    assert_eq!(InstrU::from(0x7fff_f0b7).imm, 0x7fff_f000);
    assert_eq!(InstrU::from(0x0000_10b7).imm, 0x1000);
    assert_eq!(InstrU::from(0x8000_00b7).rd.index(), 1);
}

#[test]
fn j_format_sign_extension() {
    // jal x0, -4: the decoded immediate is exactly -4
    assert_eq!(InstrJ::from(0xffdf_f06f).imm, -4);
    // jal ra, +8
    let j = InstrJ::from(0x0080_00ef);
    assert_eq!(j.imm, 8);
    assert_eq!(j.rd.index(), 1);
    // extreme offsets
    assert_eq!(InstrJ::from(0x8000_006f).imm, -1048576);
    assert_eq!(InstrJ::from(0x7fff_f06f).imm, 1048574);
}

#[test]
fn r_format_fields() {
    // add x3, x1, x2
    let r = InstrR::from(0x0020_81b3);
    assert_eq!(r.funct7, 0);
    assert_eq!(r.rs2.index(), 2);
    assert_eq!(r.rs1.index(), 1);
    assert_eq!(r.funct3, 0);
    assert_eq!(r.rd.index(), 3);
}
