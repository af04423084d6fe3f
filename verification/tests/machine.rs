use cpuemu::codec;
use cpuemu::codec::OpCode;
use cpuemu::machine::Chip;

/// A machine with the given words at the low addresses of instruction
/// memory, every other word zero, and all the rest of the state cleared.
fn chip_with(program: &[u16]) -> Chip {
    let mut rom: Vec<u16> = Vec::from(program);
    while rom.len() < 256 {
        rom.push(0);
    }
    Chip { pc: 0, flag_eq: false, reg: vec![0; 8], rom, ram: vec![0; 256] }
}

#[test]
fn new_machine_starts_cleared() {
    let chip = Chip::new();
    assert_eq!(chip.pc, 0);
    assert!(!chip.flag_eq);
    assert_eq!(chip.reg, vec![0u16; 8]);
    assert_eq!(chip.ram, vec![0u16; 256]);
    assert_eq!(chip.rom.len(), 256);
}

#[test]
fn new_machine_holds_the_demo_program() {
    let chip = Chip::new();
    assert_eq!(chip.rom[0], codec::ldh(0, 0));
    assert_eq!(chip.rom[1], codec::ldl(0, 0));
    assert_eq!(chip.rom[2], codec::ldh(1, 0));
    assert_eq!(chip.rom[3], codec::ldl(1, 1));
    assert_eq!(chip.rom[4], codec::ldh(2, 0));
    assert_eq!(chip.rom[5], codec::ldl(2, 0));
    assert_eq!(chip.rom[6], codec::ldh(3, 0));
    assert_eq!(chip.rom[7], codec::ldl(3, 10));
    assert_eq!(chip.rom[8], codec::add(2, 1));
    assert_eq!(chip.rom[9], codec::add(0, 2));
    assert_eq!(chip.rom[10], codec::st(0, 64));
    assert_eq!(chip.rom[11], codec::cmp(2, 3));
    assert_eq!(chip.rom[12], codec::je(14));
    assert_eq!(chip.rom[13], codec::jmp(8));
    assert_eq!(chip.rom[14], codec::hlt());
    // Unprogrammed instruction memory holds the zero word.
    for i in 15..256 {
        assert_eq!(chip.rom[i], 0);
    }
}

#[test]
fn assembler_matches_the_loaded_rom() {
    let program = cpuemu::machine::assembler();
    let chip = Chip::new();
    assert_eq!(program.len(), 15);
    for (i, w) in program.iter().enumerate() {
        assert_eq!(chip.rom[i], *w);
    }
}

#[test]
fn fetch_reads_at_the_program_counter() {
    let mut chip = chip_with(&[codec::mov(1, 2), codec::hlt()]);
    assert_eq!(chip.fetch(), codec::mov(1, 2));
    chip.pc = 1;
    assert_eq!(chip.fetch(), codec::hlt());
}

#[test]
fn halted_iff_fetched_opcode_is_halt() {
    let mut chip = chip_with(&[codec::hlt()]);
    assert!(chip.is_halt());
    // No other register or flag state plays a part.
    chip.flag_eq = true;
    chip.reg[0] = 0xffff;
    chip.ram[0] = 0xffff;
    assert!(chip.is_halt());

    let mut other = chip_with(&[codec::mov(0, 0), codec::hlt()]);
    assert!(!other.is_halt());
    other.pc = 1;
    assert!(other.is_halt());
}

#[test]
fn mov_copies_register_b_to_a() {
    let mut chip = chip_with(&[codec::mov(3, 6)]);
    chip.reg[6] = 0x1234;
    chip.tick();
    assert_eq!(chip.pc, 1);
    assert_eq!(chip.reg[3], 0x1234);
    assert_eq!(chip.reg[6], 0x1234);
}

#[test]
fn add_wraps_modulo_65536() {
    let mut chip = chip_with(&[codec::add(0, 1)]);
    chip.reg[0] = 0xffff;
    chip.reg[1] = 0x0001;
    chip.tick();
    assert_eq!(chip.reg[0], 0x0000);

    let mut plain = chip_with(&[codec::add(0, 1)]);
    plain.reg[0] = 40000;
    plain.reg[1] = 40000;
    plain.tick();
    assert_eq!(plain.reg[0] as u32, 80000 % 65536);
}

#[test]
fn sub_wraps_modulo_65536() {
    let mut chip = chip_with(&[codec::sub(0, 1)]);
    chip.reg[0] = 0x0000;
    chip.reg[1] = 0x0001;
    chip.tick();
    assert_eq!(chip.reg[0], 0xffff);

    let mut plain = chip_with(&[codec::sub(2, 3)]);
    plain.reg[2] = 10;
    plain.reg[3] = 4;
    plain.tick();
    assert_eq!(plain.reg[2], 6);
}

#[test]
fn and_or_are_bitwise() {
    let mut chip = chip_with(&[codec::and(0, 1)]);
    chip.reg[0] = 0xf0f0;
    chip.reg[1] = 0xff00;
    chip.tick();
    assert_eq!(chip.reg[0], 0xf000);

    let mut other = chip_with(&[codec::or(0, 1)]);
    other.reg[0] = 0xf0f0;
    other.reg[1] = 0x0f00;
    other.tick();
    assert_eq!(other.reg[0], 0xfff0);
}

#[test]
fn shift_left_discards_bit_15() {
    let mut chip = chip_with(&[codec::sl(4)]);
    chip.reg[4] = 0x8001;
    chip.tick();
    assert_eq!(chip.reg[4], 0x0002);
}

#[test]
fn shift_right_logical_clears_bit_15() {
    let mut chip = chip_with(&[codec::sr(4)]);
    chip.reg[4] = 0x8001;
    chip.tick();
    assert_eq!(chip.reg[4], 0x4000);
}

#[test]
fn shift_right_arithmetic_keeps_original_bit_15() {
    // 0x8001 -> bit 15 stays set, the rest shifts right one place.
    let mut chip = chip_with(&[codec::sra(0)]);
    chip.reg[0] = 0x8001;
    chip.tick();
    assert_eq!(chip.reg[0], 0xc000);

    // The one-shot formula, not a generic sign-extending shift: a second
    // application shifts the previously kept bit like any other.
    let mut twice = chip_with(&[codec::sra(0), codec::sra(0)]);
    twice.reg[0] = 0x8001;
    twice.tick();
    twice.tick();
    assert_eq!(twice.reg[0], 0xe000);

    // With bit 15 clear it behaves as a logical shift.
    let mut clear = chip_with(&[codec::sra(1)]);
    clear.reg[1] = 0x4002;
    clear.tick();
    assert_eq!(clear.reg[1], 0x2001);
}

#[test]
fn load_immediate_low_keeps_high_byte() {
    let mut chip = chip_with(&[codec::ldl(2, 0xef)]);
    chip.reg[2] = 0xabcd;
    chip.tick();
    assert_eq!(chip.reg[2], 0xabef);
}

#[test]
fn load_immediate_high_keeps_low_byte() {
    let mut chip = chip_with(&[codec::ldh(2, 0x12)]);
    chip.reg[2] = 0xabcd;
    chip.tick();
    assert_eq!(chip.reg[2], 0x12cd);
}

#[test]
fn compare_sets_only_the_flag() {
    let mut chip = chip_with(&[codec::cmp(0, 1), codec::cmp(0, 1)]);
    chip.reg[0] = 7;
    chip.reg[1] = 7;
    chip.tick();
    assert!(chip.flag_eq);
    assert_eq!(chip.reg[0], 7);
    assert_eq!(chip.reg[1], 7);
    chip.reg[1] = 8;
    chip.tick();
    assert!(!chip.flag_eq);
}

#[test]
fn jump_if_equal_follows_the_flag() {
    let mut untaken = chip_with(&[codec::je(5)]);
    untaken.flag_eq = false;
    untaken.tick();
    assert_eq!(untaken.pc, 1);

    let mut taken = chip_with(&[codec::je(5)]);
    taken.flag_eq = true;
    taken.tick();
    assert_eq!(taken.pc, 5);
}

#[test]
fn jump_is_absolute_and_unconditional() {
    let mut chip = chip_with(&[codec::jmp(200)]);
    chip.tick();
    assert_eq!(chip.pc, 200);
    let mut flagged = chip_with(&[codec::jmp(3)]);
    flagged.flag_eq = true;
    flagged.tick();
    assert_eq!(flagged.pc, 3);
}

#[test]
fn load_reads_data_memory() {
    let mut chip = chip_with(&[codec::ld(5, 9)]);
    chip.ram[9] = 0x5a5a;
    chip.tick();
    assert_eq!(chip.reg[5], 0x5a5a);
}

#[test]
fn store_writes_data_memory() {
    let mut chip = chip_with(&[codec::st(5, 7)]);
    chip.reg[5] = 99;
    chip.tick();
    assert_eq!(chip.ram[7], 99);
}

#[test]
fn zero_word_executes_as_a_no_op_not_halt() {
    // Unprogrammed memory decodes as move register 0 to register 0.
    let mut chip = chip_with(&[]);
    assert!(!chip.is_halt());
    chip.reg[0] = 41;
    chip.flag_eq = true;
    chip.tick();
    assert_eq!(chip.pc, 1);
    assert_eq!(chip.reg[0], 41);
    assert!(chip.flag_eq);
}

#[test]
fn halt_instruction_is_never_executed() {
    let mut chip = chip_with(&[codec::hlt()]);
    let mut steps: usize = 0;
    while !chip.is_halt() {
        chip.tick();
        steps += 1;
    }
    assert_eq!(steps, 0);
    assert_eq!(chip.pc, 0);
}

#[test]
fn demo_program_sums_one_to_ten() {
    let mut chip = Chip::new();
    let mut stores: Vec<u16> = Vec::new();
    let mut steps: usize = 0;
    while !chip.is_halt() {
        let storing = codec::op_code(chip.fetch()) == OpCode::ST;
        chip.tick();
        if storing {
            stores.push(chip.ram[64]);
        }
        steps += 1;
        assert!(steps < 1000, "the demo program must reach halt");
    }
    // Each pass stores the next partial sum 1, 1+2, ..., up to 55.
    assert_eq!(stores, vec![1, 3, 6, 10, 15, 21, 28, 36, 45, 55]);
    assert_eq!(chip.ram[64], 55);
    assert!(chip.is_halt());
    assert_eq!(chip.pc, 14);
}
