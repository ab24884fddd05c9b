use n2t_wasm::{compute, disassemble, parse_program};
use n2t_wasm::{Emu, EmuError, ScreenWrite, KEYBOARD, RAM_SIZE, ROM_SIZE, SCREEN_START};

const CODES: [(u16, &str); 28] = [
    (0x2a, "0"),
    (0x3f, "1"),
    (0x3a, "-1"),
    (0x0c, "D"),
    (0x30, "A"),
    (0x0d, "!D"),
    (0x31, "!A"),
    (0x0f, "-D"),
    (0x33, "-A"),
    (0x1f, "D+1"),
    (0x37, "A+1"),
    (0x0e, "D-1"),
    (0x32, "A-1"),
    (0x02, "D+A"),
    (0x13, "D-A"),
    (0x07, "A-D"),
    (0x00, "D&A"),
    (0x15, "D|A"),
    (0x70, "M"),
    (0x71, "!M"),
    (0x73, "-M"),
    (0x77, "M+1"),
    (0x72, "M-1"),
    (0x42, "D+M"),
    (0x53, "D-M"),
    (0x47, "M-D"),
    (0x40, "D&M"),
    (0x55, "D|M"),
];

fn expected(code: u16, x: u16, y: u16) -> u16 {
    match code & 0x3f {
        0x2a => 0,
        0x3f => 1,
        0x3a => 0xffff,
        0x0c => x,
        0x30 => y,
        0x0d => !x,
        0x31 => !y,
        0x0f => x.wrapping_neg(),
        0x33 => y.wrapping_neg(),
        0x1f => x.wrapping_add(1),
        0x37 => y.wrapping_add(1),
        0x0e => x.wrapping_sub(1),
        0x32 => y.wrapping_sub(1),
        0x02 => x.wrapping_add(y),
        0x13 => x.wrapping_sub(y),
        0x07 => y.wrapping_sub(x),
        0x00 => x & y,
        0x15 => x | y,
        _ => panic!("not a table code"),
    }
}

fn machine_with(program: &str) -> Emu {
    let mut emu = Emu::new();
    assert_eq!(emu.load_rom(program), Ok(()));
    emu
}

fn ticks(emu: &mut Emu, n: usize) {
    for _ in 0..n {
        assert_eq!(emu.tick(), Ok(None));
    }
}

#[test]
fn alu_matches_table_on_edge_operands() {
    let operands: [u16; 5] = [0, 1, 0xffff, 0x7fff, 0x8000];
    for &(code, _) in CODES.iter() {
        for &x in operands.iter() {
            for &y in operands.iter() {
                let (out, zr, ng) = compute(x, y, code);
                assert_eq!(out, expected(code, x, y), "code {:#x} x {} y {}", code, x, y);
                assert_eq!(zr, out == 0);
                assert_eq!(ng, (out as i16) < 0);
            }
        }
    }
}

#[test]
fn alu_constant_one_ignores_operands() {
    for &(x, y) in [(0u16, 0u16), (1, 0xffff), (0x8000, 0x7fff), (1234, 4321)].iter() {
        assert_eq!(compute(x, y, 0x3f), (1, false, false));
    }
}

#[test]
fn alu_method_latches_operands_and_flags() {
    let mut emu = Emu::new();
    // `-1` leaves x = !0 and y = 0 latched.
    assert_eq!(emu.alu(0x3a), 0xffff);
    // x & !0 passes the latched x through.
    assert_eq!(emu.alu(0x0c), 0xffff);
    assert_eq!(emu.alu(0x2a), 0);
}

#[test]
fn alu_flags_on_results() {
    assert_eq!(compute(5, 5, 0x13), (0, true, false));
    assert_eq!(compute(3, 5, 0x13), (0xfffe, false, true));
    assert_eq!(compute(0xffff, 1, 0x02), (0, true, false));
}

#[test]
fn address_instruction_loads_register() {
    let mut emu = machine_with("0000000000000101\n");
    assert_eq!(emu.tick(), Ok(None));
    assert_eq!(emu.ra(), 5);
    assert_eq!(emu.pc(), 1);
    assert_eq!(emu.rd(), 0);
    assert_eq!(emu.rm(), 0);
}

#[test]
fn write_then_read_through_memory() {
    // @5, M=1, @5, D=M
    let mut emu = machine_with(
        "0000000000000101\n1110111111001000\n0000000000000101\n1111110000010000\n",
    );
    ticks(&mut emu, 4);
    assert_eq!(emu.rd(), 1);
    assert_eq!(emu.read_ram(5), Ok(1));
}

#[test]
fn jump_on_zero_result_goes_to_address_register() {
    // @7, D=0;JEQ
    let mut emu = machine_with("0000000000000111\n1110101010010010\n");
    ticks(&mut emu, 2);
    assert_eq!(emu.rd(), 0);
    assert_eq!(emu.pc(), 7);
}

#[test]
fn jump_on_data_register_zero_taken() {
    // @0, D=A, @7, D;JEQ
    let mut emu = machine_with(
        "0000000000000000\n1110110000010000\n0000000000000111\n1110001100000010\n",
    );
    ticks(&mut emu, 4);
    assert_eq!(emu.pc(), 7);
}

#[test]
fn jump_on_data_register_one_not_taken() {
    // @1, D=A, @7, D;JEQ
    let mut emu = machine_with(
        "0000000000000001\n1110110000010000\n0000000000000111\n1110001100000010\n",
    );
    ticks(&mut emu, 4);
    assert_eq!(emu.rd(), 1);
    assert_eq!(emu.pc(), 4);
}

#[test]
fn jump_target_is_address_register_before_the_cycle() {
    // @3, A=0;JMP
    let mut emu = machine_with("0000000000000011\n1110101010100111\n");
    ticks(&mut emu, 2);
    assert_eq!(emu.pc(), 3);
    assert_eq!(emu.ra(), 0);
}

#[test]
fn destination_writes_use_values_from_cycle_start() {
    // @5, AM=A+1: memory at the old address 5 gets 6, then A becomes 6.
    let mut emu = machine_with("0000000000000101\n1110110111101000\n");
    ticks(&mut emu, 2);
    assert_eq!(emu.read_ram(5), Ok(6));
    assert_eq!(emu.read_ram(6), Ok(0));
    assert_eq!(emu.ra(), 6);
}

#[test]
fn screen_write_from_host_is_notified_once() {
    let mut emu = Emu::new();
    let w = emu.store_ram(SCREEN_START, 0xffff);
    assert_eq!(w, Ok(Some(ScreenWrite { address: SCREEN_START, value: 0xffff })));
    assert_eq!(emu.read_ram(SCREEN_START), Ok(0xffff));
}

#[test]
fn screen_write_from_program_is_notified() {
    // @16384, M=-1
    let mut emu = machine_with("0100000000000000\n1110111010001000\n");
    assert_eq!(emu.tick(), Ok(None));
    assert_eq!(emu.tick(), Ok(Some(ScreenWrite { address: 0x4000, value: 0xffff })));
    assert_eq!(emu.read_ram(0x4000), Ok(0xffff));
}

#[test]
fn write_outside_screen_has_no_notification() {
    let mut emu = Emu::new();
    assert_eq!(emu.store_ram(100, 7), Ok(None));
    assert_eq!(emu.store_ram(0x3fff, 7), Ok(None));
    assert_eq!(emu.store_ram(0x6000, 7), Ok(None));
    assert_eq!(emu.read_ram(100), Ok(7));
}

#[test]
fn memory_access_out_of_range_is_refused() {
    let mut emu = Emu::new();
    assert_eq!(emu.store_ram(RAM_SIZE as u16, 1), Err(EmuError::OutOfRange));
    assert_eq!(emu.read_ram(RAM_SIZE as u16), Err(EmuError::OutOfRange));
    assert_eq!(emu.read_ram(0xffff), Err(EmuError::OutOfRange));
    assert_eq!(emu.read_rom(ROM_SIZE as u16), Err(EmuError::OutOfRange));
}

#[test]
fn program_memory_write_out_of_range_is_refused() {
    // @28672, M=1
    let mut emu = machine_with("0111000000000000\n1110111111001000\n");
    assert_eq!(emu.tick(), Ok(None));
    assert_eq!(emu.tick(), Err(EmuError::OutOfRange));
    assert_eq!(emu.pc(), 1);
    assert_eq!(emu.ra(), 0x7000);
}

#[test]
fn program_memory_read_out_of_range_is_refused() {
    // @28672, D=M
    let mut emu = machine_with("0111000000000000\n1111110000010000\n");
    assert_eq!(emu.tick(), Ok(None));
    assert_eq!(emu.tick(), Err(EmuError::OutOfRange));
    assert_eq!(emu.rd(), 0);
}

#[test]
fn constant_above_data_store_is_usable() {
    // @32767, D=A
    let mut emu = machine_with("0111111111111111\n1110110000010000\n");
    ticks(&mut emu, 2);
    assert_eq!(emu.rd(), 0x7fff);
}

#[test]
fn jump_outside_instruction_store_is_refused() {
    // A=-1, 0;JMP
    let mut emu = machine_with("1110111010100000\n1110101010000111\n");
    ticks(&mut emu, 1);
    assert_eq!(emu.ra(), 0xffff);
    assert_eq!(emu.tick(), Err(EmuError::OutOfRange));
    assert_eq!(emu.pc(), 1);
}

#[test]
fn program_cannot_write_keyboard_register() {
    // @24576, M=1
    let mut emu = machine_with("0110000000000000\n1110111111001000\n");
    ticks(&mut emu, 2);
    assert_eq!(emu.read_ram(KEYBOARD), Ok(0));
}

#[test]
fn program_reads_injected_key() {
    // @24576, D=M
    let mut emu = machine_with("0110000000000000\n1111110000010000\n");
    emu.inject_key(65);
    assert_eq!(emu.read_ram(KEYBOARD), Ok(65));
    ticks(&mut emu, 2);
    assert_eq!(emu.rd(), 65);
    emu.clear_key();
    assert_eq!(emu.read_ram(KEYBOARD), Ok(0));
}

#[test]
fn disassembles_every_table_code() {
    for &(code, text) in CODES.iter() {
        let op = 0xe000u16 | (code << 6);
        assert_eq!(disassemble(op), text, "code {:#x}", code);
    }
}

#[test]
fn disassembles_address_instructions() {
    assert_eq!(disassemble(0), "@0");
    assert_eq!(disassemble(5), "@5");
    assert_eq!(disassemble(10), "@10");
    assert_eq!(disassemble(16384), "@16384");
    assert_eq!(disassemble(0x7fff), "@32767");
    for v in [1u16, 9, 99, 100, 1000, 24576].iter() {
        assert_eq!(disassemble(*v), format!("@{}", v));
    }
}

#[test]
fn disassembles_destination_and_jump() {
    assert_eq!(disassemble(0b1110111111001000), "M=1");
    assert_eq!(disassemble(0b1110101010010010), "D=0;JEQ");
    assert_eq!(disassemble(0b1110001100000010), "D;JEQ");
    assert_eq!(disassemble(0b1110101010000111), "0;JMP");
    assert_eq!(disassemble(0b1111110111111111), "AMD=M+1;JMP");
    assert_eq!(disassemble(0b1110001100000100), "D;JLT");
}

#[test]
fn disassembles_unknown_code_as_question_mark() {
    assert_eq!(disassemble(0b1110000001010000), "D=?");
}

#[test]
fn reset_twice_equals_reset_once() {
    let mut a = machine_with("0000000000000101\n1110111111001000\n");
    ticks(&mut a, 2);
    assert_eq!(a.store_ram(SCREEN_START, 3), Ok(Some(ScreenWrite { address: SCREEN_START, value: 3 })));
    a.reset();
    let once = (a.pc(), a.ra(), a.rd(), a.rm(), a.read_ram(5), a.read_ram(SCREEN_START), a.read_rom(1));
    a.reset();
    let twice = (a.pc(), a.ra(), a.rd(), a.rm(), a.read_ram(5), a.read_ram(SCREEN_START), a.read_rom(1));
    assert_eq!(once, twice);
    assert_eq!(once, (0, 0, 0, 0, Ok(0), Ok(0), Ok(0b1110111111001000)));
}

#[test]
fn zero_rom_loops_forever_without_side_effects() {
    let mut emu = Emu::new();
    for i in 0..ROM_SIZE {
        assert_eq!(emu.pc() as usize, i);
        assert_eq!(emu.tick(), Ok(None));
        assert_eq!(emu.ra(), 0);
    }
    assert_eq!(emu.pc(), 0);
    assert_eq!(emu.tick(), Ok(None));
    assert_eq!(emu.pc(), 1);
    assert_eq!(emu.read_ram(0), Ok(0));
}

#[test]
fn run_collects_screen_writes() {
    // @16384, M=-1, @2, 0;JMP (loops on the jump)
    let mut emu = machine_with(
        "0100000000000000\n1110111010001000\n0000000000000010\n1110101010000111\n",
    );
    let mut writes = Vec::new();
    assert_eq!(emu.run(&mut writes), Ok(()));
    assert_eq!(writes, vec![ScreenWrite { address: 0x4000, value: 0xffff }]);
}

#[test]
fn run_stops_at_refused_cycle() {
    // @28672, M=1
    let mut emu = machine_with("0111000000000000\n1110111111001000\n");
    let mut writes = Vec::new();
    assert_eq!(emu.run(&mut writes), Err(EmuError::OutOfRange));
    assert!(writes.is_empty());
    assert_eq!(emu.pc(), 1);
}

#[test]
fn load_fills_rom_and_zeroes_the_rest() {
    let mut emu = machine_with("1111111111111111\n0000000000000001\n1000000000000000\n");
    assert_eq!(emu.read_rom(0), Ok(0xffff));
    assert_eq!(emu.read_rom(1), Ok(1));
    assert_eq!(emu.read_rom(2), Ok(0x8000));
    assert_eq!(emu.read_rom(3), Ok(0));
    assert_eq!(emu.load_rom("0000000000000011"), Ok(()));
    assert_eq!(emu.read_rom(0), Ok(3));
    assert_eq!(emu.read_rom(1), Ok(0));
}

#[test]
fn load_accepts_crlf_and_no_final_newline() {
    assert_eq!(parse_program("0000000000000001\r\n0000000000000010"), Ok(vec![1, 2]));
    assert_eq!(parse_program(""), Ok(vec![]));
    assert_eq!(parse_program("0000000000000100\n"), Ok(vec![4]));
}

#[test]
fn load_rejects_malformed_lines() {
    assert_eq!(parse_program("000000000000010\n"), Err(EmuError::FormatError));
    assert_eq!(parse_program("00000000000001010\n"), Err(EmuError::FormatError));
    assert_eq!(parse_program("000000000000010x\n"), Err(EmuError::FormatError));
    assert_eq!(parse_program("0000000000000101\n\n0000000000000101\n"), Err(EmuError::FormatError));
    assert_eq!(parse_program("00000000000001é0\n"), Err(EmuError::FormatError));
    assert_eq!(parse_program("0000000000000101\r"), Ok(vec![5]));
    assert_eq!(parse_program("000000000000010\r1\n"), Err(EmuError::FormatError));
}

#[test]
fn load_rejects_program_longer_than_rom() {
    let full = "0000000000000001\n".repeat(ROM_SIZE);
    assert_eq!(parse_program(&full).map(|w| w.len()), Ok(ROM_SIZE));
    let over = "0000000000000001\n".repeat(ROM_SIZE + 1);
    assert_eq!(parse_program(&over), Err(EmuError::FormatError));
}

#[test]
fn failed_load_keeps_rom() {
    let mut emu = machine_with("0000000000000111\n");
    assert_eq!(emu.load_rom("0000000000000001\nbad\n"), Err(EmuError::FormatError));
    assert_eq!(emu.read_rom(0), Ok(7));
    assert_eq!(emu.read_rom(1), Ok(0));
}
