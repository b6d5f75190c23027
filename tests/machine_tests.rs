use chip8::cpu::{ALUOperations, CPUInstrTarget, CPUInstruction, Chip8Error};
use chip8::host::{
    execute_instructions, get_display_as_ints, get_display_as_str, load_program,
    program_8_to_16, reset_inst, reset_pc, timer_tick_and_get_sound, update_keys_status,
};
use chip8::input::Chip8Input;
use chip8::machine::Chip8;
use chip8::memory::{Chip8Memory, StackError};
use chip8::output::Chip8Output;
use chip8::output::Chip8Pixel;
use chip8::output::Chip8Pixel::{Black as B, White as W};
use chip8::cpu::CPUInstrTarget::{
    Constant, CurrentDelayTimer, CurrentKeyPressed, CurrentSoundTimer, IRegister,
    IsKeyInVRegPressed, RandomNum, SpriteAddress, True, VRegister,
};
use chip8::registers::Chip8Registers;
use chip8::sprites::Chip8Sprite;
use chip8::timers::Chip8Timers;

fn machine(program: &[u16]) -> Chip8 {
    Chip8::new_with_program(&program.to_vec())
}

fn lit_pixels(c8: &Chip8) -> usize {
    get_display_as_ints(c8).iter().filter(|&&p| p == 1).count()
}

#[test]
fn decode_examples() {
    assert_eq!(Chip8::opcode_to_instruction(0x00E0), CPUInstruction::ClearDisplay);
    assert_eq!(Chip8::opcode_to_instruction(0x00EE), CPUInstruction::Return);
    assert_eq!(
        Chip8::opcode_to_instruction(0x1234),
        CPUInstruction::Jump { addr: CPUInstrTarget::Constant(0x234) }
    );
    assert_eq!(
        Chip8::opcode_to_instruction(0xF529),
        CPUInstruction::Assignment {
            to: CPUInstrTarget::IRegister,
            from: CPUInstrTarget::SpriteAddress(5),
        }
    );
}

#[test]
fn decode_table_rows() {
    assert_eq!(
        Chip8::opcode_to_instruction(0x0123),
        CPUInstruction::CallMachineCode { addr: Constant(0x123) }
    );
    assert_eq!(
        Chip8::opcode_to_instruction(0x2ABC),
        CPUInstruction::CallSubroutine { addr: Constant(0xABC) }
    );
    assert_eq!(
        Chip8::opcode_to_instruction(0x3A12),
        CPUInstruction::CompareEq { eq: true, left: VRegister(0xA), right: Constant(0x12) }
    );
    assert_eq!(
        Chip8::opcode_to_instruction(0x4A12),
        CPUInstruction::CompareEq { eq: false, left: VRegister(0xA), right: Constant(0x12) }
    );
    assert_eq!(
        Chip8::opcode_to_instruction(0x5120),
        CPUInstruction::CompareEq { eq: true, left: VRegister(1), right: VRegister(2) }
    );
    assert_eq!(
        Chip8::opcode_to_instruction(0x9120),
        CPUInstruction::CompareEq { eq: false, left: VRegister(1), right: VRegister(2) }
    );
    assert_eq!(
        Chip8::opcode_to_instruction(0x5121),
        CPUInstruction::Unknown { opcode: 0x5121 }
    );
    assert_eq!(
        Chip8::opcode_to_instruction(0x63FF),
        CPUInstruction::Assignment { to: VRegister(3), from: Constant(0xFF) }
    );
    assert_eq!(
        Chip8::opcode_to_instruction(0x7310),
        CPUInstruction::ALUOperation {
            op: ALUOperations::Add { update_vf: false },
            left: VRegister(3),
            right: Constant(0x10),
        }
    );
    let alu = [
        (0x0, ALUOperations::Assign),
        (0x1, ALUOperations::Or),
        (0x2, ALUOperations::And),
        (0x3, ALUOperations::Xor),
        (0x4, ALUOperations::Add { update_vf: true }),
        (0x5, ALUOperations::Subtract { update_vf: true }),
        (0x6, ALUOperations::ShiftRight { update_vf: true }),
        (0x7, ALUOperations::SubtractFlipped { update_vf: true }),
        (0xE, ALUOperations::ShiftLeft { update_vf: true }),
        (0x9, ALUOperations::Unknown),
    ];
    for (n, op) in alu {
        assert_eq!(
            Chip8::opcode_to_instruction(0x8120 | n),
            CPUInstruction::ALUOperation { op, left: VRegister(1), right: VRegister(2) }
        );
    }
    assert_eq!(
        Chip8::opcode_to_instruction(0xA123),
        CPUInstruction::Assignment { to: IRegister, from: Constant(0x123) }
    );
    assert_eq!(
        Chip8::opcode_to_instruction(0xB123),
        CPUInstruction::SpecialJump { offset: Constant(0x123) }
    );
    assert_eq!(
        Chip8::opcode_to_instruction(0xC20F),
        CPUInstruction::Assignment { to: VRegister(2), from: RandomNum(0x0F) }
    );
    assert_eq!(
        Chip8::opcode_to_instruction(0xD125),
        CPUInstruction::Draw { x_reg: VRegister(1), y_reg: VRegister(2), height_px: Constant(5) }
    );
    assert_eq!(
        Chip8::opcode_to_instruction(0xE49E),
        CPUInstruction::CompareEq { eq: true, left: IsKeyInVRegPressed(4), right: True }
    );
    assert_eq!(
        Chip8::opcode_to_instruction(0xE4A1),
        CPUInstruction::CompareEq { eq: false, left: IsKeyInVRegPressed(4), right: True }
    );
    assert_eq!(Chip8::opcode_to_instruction(0xE400), CPUInstruction::Unknown { opcode: 0xE400 });
    assert_eq!(
        Chip8::opcode_to_instruction(0xF307),
        CPUInstruction::Assignment { to: VRegister(3), from: CurrentDelayTimer }
    );
    assert_eq!(
        Chip8::opcode_to_instruction(0xF30A),
        CPUInstruction::Assignment { to: VRegister(3), from: CurrentKeyPressed }
    );
    assert_eq!(
        Chip8::opcode_to_instruction(0xF315),
        CPUInstruction::Assignment { to: CurrentDelayTimer, from: VRegister(3) }
    );
    assert_eq!(
        Chip8::opcode_to_instruction(0xF318),
        CPUInstruction::Assignment { to: CurrentSoundTimer, from: VRegister(3) }
    );
    assert_eq!(
        Chip8::opcode_to_instruction(0xF31E),
        CPUInstruction::ALUOperation {
            op: ALUOperations::Add { update_vf: false },
            left: IRegister,
            right: VRegister(3),
        }
    );
    assert_eq!(Chip8::opcode_to_instruction(0xF333), CPUInstruction::BCD { x_reg: VRegister(3) });
    assert_eq!(
        Chip8::opcode_to_instruction(0xF355),
        CPUInstruction::RegisterDump { x: Constant(3) }
    );
    assert_eq!(
        Chip8::opcode_to_instruction(0xF365),
        CPUInstruction::RegisterLoad { x: Constant(3) }
    );
    assert_eq!(Chip8::opcode_to_instruction(0xF3FF), CPUInstruction::Unknown { opcode: 0xF3FF });
}

#[test]
fn alu_add_sets_carry() {
    let mut c8 = machine(&[0x8014]);
    c8.registers.v[0] = 0xFF;
    c8.registers.v[1] = 0x01;
    assert_eq!(c8.step(0), Ok(()));
    assert_eq!(c8.registers.v[0], 0x00);
    assert_eq!(c8.registers.v[0xF], 1);
    assert_eq!(c8.registers.pc, 0x202);
}

#[test]
fn alu_add_without_carry_clears_flag() {
    let mut c8 = machine(&[0x8014]);
    c8.registers.v[0] = 0x10;
    c8.registers.v[1] = 0x01;
    c8.registers.v[0xF] = 7;
    assert_eq!(c8.step(0), Ok(()));
    assert_eq!(c8.registers.v[0], 0x11);
    assert_eq!(c8.registers.v[0xF], 0);
}

#[test]
fn alu_subtract_no_borrow() {
    let mut c8 = machine(&[0x8015]);
    c8.registers.v[0] = 0x05;
    c8.registers.v[1] = 0x03;
    assert_eq!(c8.step(0), Ok(()));
    assert_eq!(c8.registers.v[0], 0x02);
    assert_eq!(c8.registers.v[0xF], 1);
}

#[test]
fn alu_subtract_with_borrow() {
    let mut c8 = machine(&[0x8015]);
    c8.registers.v[0] = 0x03;
    c8.registers.v[1] = 0x05;
    assert_eq!(c8.step(0), Ok(()));
    assert_eq!(c8.registers.v[0], 0xFE);
    assert_eq!(c8.registers.v[0xF], 0);
}

#[test]
fn alu_subtract_flipped() {
    let mut c8 = machine(&[0x8017]);
    c8.registers.v[0] = 0x03;
    c8.registers.v[1] = 0x05;
    assert_eq!(c8.step(0), Ok(()));
    assert_eq!(c8.registers.v[0], 0x02);
    assert_eq!(c8.registers.v[0xF], 1);
}

#[test]
fn alu_shift_flags() {
    let mut c8 = machine(&[0x8106, 0x820E]);
    c8.registers.v[1] = 0b1000_0011;
    c8.registers.v[2] = 0b1000_0010;
    assert_eq!(c8.step(0), Ok(()));
    assert_eq!(c8.registers.v[1], 0b0100_0001);
    assert_eq!(c8.registers.v[0xF], 1);
    assert_eq!(c8.step(0), Ok(()));
    assert_eq!(c8.registers.v[2], 0b0000_0100);
    assert_eq!(c8.registers.v[0xF], 1);

    let mut c8 = machine(&[0x8106, 0x820E]);
    c8.registers.v[1] = 0b0000_0010;
    c8.registers.v[2] = 0b0100_0000;
    assert_eq!(c8.step(0), Ok(()));
    assert_eq!(c8.registers.v[1], 0b0000_0001);
    assert_eq!(c8.registers.v[0xF], 0);
    assert_eq!(c8.step(0), Ok(()));
    assert_eq!(c8.registers.v[2], 0b1000_0000);
    assert_eq!(c8.registers.v[0xF], 0);
}

#[test]
fn alu_logic_leaves_flag() {
    let mut c8 = machine(&[0x8011, 0x8022, 0x8033]);
    c8.registers.v[0] = 0b1100;
    c8.registers.v[1] = 0b1010;
    c8.registers.v[2] = 0b0110;
    c8.registers.v[3] = 0b1111;
    c8.registers.v[0xF] = 9;
    assert_eq!(c8.step(0), Ok(()));
    assert_eq!(c8.registers.v[0], 0b1110);
    assert_eq!(c8.step(0), Ok(()));
    assert_eq!(c8.registers.v[0], 0b0110);
    assert_eq!(c8.step(0), Ok(()));
    assert_eq!(c8.registers.v[0], 0b1001);
    assert_eq!(c8.registers.v[0xF], 9);
}

#[test]
fn add_constant_wraps_without_flag() {
    let mut c8 = machine(&[0x7A10]);
    c8.registers.v[0xA] = 0xF8;
    c8.registers.v[0xF] = 5;
    assert_eq!(c8.step(0), Ok(()));
    assert_eq!(c8.registers.v[0xA], 0x08);
    assert_eq!(c8.registers.v[0xF], 5);
}

#[test]
fn bcd_of_255() {
    let mut c8 = machine(&[0xF333]);
    c8.registers.v[3] = 255;
    c8.registers.i = 0x300;
    assert_eq!(c8.step(0), Ok(()));
    assert_eq!(c8.memory.mem[0x300], 2);
    assert_eq!(c8.memory.mem[0x301], 5);
    assert_eq!(c8.memory.mem[0x302], 5);
}

#[test]
fn bcd_of_small_value() {
    let mut c8 = machine(&[0xF333]);
    c8.registers.v[3] = 7;
    c8.registers.i = 0x300;
    assert_eq!(c8.step(0), Ok(()));
    assert_eq!(&c8.memory.mem[0x300..0x303], &[0, 0, 7]);
}

#[test]
fn dump_then_load_round_trip() {
    let mut c8 = machine(&[0xF355, 0x6000, 0x6100, 0x6200, 0x6300, 0xF365]);
    c8.registers.v[0] = 11;
    c8.registers.v[1] = 22;
    c8.registers.v[2] = 33;
    c8.registers.v[3] = 44;
    c8.registers.v[4] = 55;
    c8.registers.i = 0x400;
    for _ in 0..6 {
        assert_eq!(c8.step(0), Ok(()));
    }
    assert_eq!(&c8.registers.v[0..5], &[11, 22, 33, 44, 55]);
    assert_eq!(&c8.memory.mem[0x400..0x405], &[11, 22, 33, 44, 0]);
}

#[test]
fn stack_push_pop_lifo() {
    let mut mem = Chip8Memory::new();
    assert_eq!(mem.push_to_stack_u16(0x1234), Ok(()));
    assert_eq!(mem.push_to_stack_u16(0xABCD), Ok(()));
    assert_eq!(mem.pop_from_stack_u16(), Ok(0xABCD));
    assert_eq!(mem.pop_from_stack_u16(), Ok(0x1234));
    assert_eq!(mem.stack_ptr, 0x0EFF);
    assert_eq!(mem.pop_from_stack_u16(), Err(StackError::Underflow));
    assert_eq!(mem.pop_from_stack_u8(), Err(StackError::Underflow));
}

#[test]
fn stack_bytes_order() {
    let mut mem = Chip8Memory::new();
    assert_eq!(mem.push_to_stack_u16(0x1234), Ok(()));
    assert_eq!(mem.mem[0x0EFF], 0x12);
    assert_eq!(mem.mem[0x0EFE], 0x34);
    assert_eq!(mem.pop_from_stack_u8(), Ok(0x34));
    assert_eq!(mem.pop_from_stack_u8(), Ok(0x12));
}

#[test]
fn stack_overflow_is_reported() {
    let mut mem = Chip8Memory::new();
    let mut pushed = 0;
    while mem.push_to_stack_u16(pushed).is_ok() {
        pushed += 1;
    }
    assert_eq!(pushed, 48);
    assert_eq!(mem.push_to_stack_u8(1), Err(StackError::Overflow));
    assert_eq!(mem.pop_from_stack_u16(), Ok(47));
}

#[test]
fn nested_calls_return_in_order() {
    // 0x200: call 0x300; 0x202: jump 0x202
    // 0x300: call 0x400; 0x302: return
    // 0x400: return
    let mut c8 = machine(&[0x2300, 0x1202]);
    c8.memory.mem[0x300] = 0x24;
    c8.memory.mem[0x301] = 0x00;
    c8.memory.mem[0x302] = 0x00;
    c8.memory.mem[0x303] = 0xEE;
    c8.memory.mem[0x400] = 0x00;
    c8.memory.mem[0x401] = 0xEE;
    assert_eq!(c8.step(0), Ok(()));
    assert_eq!(c8.registers.pc, 0x300);
    assert_eq!(c8.step(0), Ok(()));
    assert_eq!(c8.registers.pc, 0x400);
    assert_eq!(c8.step(0), Ok(()));
    assert_eq!(c8.registers.pc, 0x302);
    assert_eq!(c8.step(0), Ok(()));
    assert_eq!(c8.registers.pc, 0x202);
    assert_eq!(c8.memory.stack_ptr, 0x0EFF);
}

#[test]
fn return_on_empty_stack_fails() {
    let mut c8 = machine(&[0x00EE]);
    assert_eq!(c8.step(0), Err(Chip8Error::StackUnderflow { opcode: 0x00EE }));
    assert_eq!(c8.registers.pc, 0x200);
}

#[test]
fn call_with_full_stack_fails() {
    let mut c8 = machine(&[0x2200]);
    let mut steps = 0;
    let err = loop {
        match c8.step(0) {
            Ok(()) => steps += 1,
            Err(e) => break e,
        }
    };
    assert_eq!(steps, 48);
    assert_eq!(err, Chip8Error::StackOverflow { opcode: 0x2200 });
}

#[test]
fn draw_twice_restores_display_and_flags() {
    let mut c8 = machine(&[0xD015, 0xD015]);
    c8.registers.i = 0;
    assert_eq!(c8.step(0), Ok(()));
    assert_eq!(c8.registers.v[0xF], 0);
    assert_eq!(lit_pixels(&c8), 14);
    assert_eq!(c8.output.display[0][0], Chip8Pixel::White);
    assert_eq!(c8.output.display[1][1], Chip8Pixel::Black);
    assert_eq!(c8.step(0), Ok(()));
    assert_eq!(c8.registers.v[0xF], 1);
    assert_eq!(lit_pixels(&c8), 0);
}

#[test]
fn draw_wraps_around_edges() {
    let mut c8 = machine(&[0xD012]);
    c8.registers.v[0] = 62 + 64;
    c8.registers.v[1] = 31 + 32;
    c8.registers.i = 0x300;
    c8.memory.mem[0x300] = 0xFF;
    c8.memory.mem[0x301] = 0x81;
    assert_eq!(c8.step(0), Ok(()));
    assert_eq!(c8.registers.v[0xF], 0);
    let d = &c8.output.display;
    for col in [62, 63, 0, 1, 2, 3, 4, 5] {
        assert_eq!(d[31][col], Chip8Pixel::White);
    }
    assert_eq!(d[0][62], Chip8Pixel::White);
    assert_eq!(d[0][5], Chip8Pixel::White);
    assert_eq!(d[0][63], Chip8Pixel::Black);
    assert_eq!(lit_pixels(&c8), 10);
}

#[test]
fn draw_past_memory_end_fails() {
    let mut c8 = machine(&[0xD01F]);
    c8.registers.i = 0xFF5;
    assert_eq!(c8.step(0), Err(Chip8Error::AddressOutOfRange { opcode: 0xD01F }));
    assert_eq!(lit_pixels(&c8), 0);
}

#[test]
fn blocking_key_read_waits_then_takes_key() {
    let mut c8 = machine(&[0xF00A]);
    c8.registers.v[0] = 9;
    for _ in 0..5 {
        assert_eq!(c8.step(0), Ok(()));
        assert_eq!(c8.registers.pc, 0x200);
    }
    c8.input.keys_status[7] = true;
    c8.input.keys_status[0xB] = true;
    assert_eq!(c8.step(0), Ok(()));
    assert_eq!(c8.registers.pc, 0x202);
    assert_eq!(c8.registers.v[0], 7);
}

#[test]
fn key_skip_instructions() {
    let mut c8 = machine(&[0xE19E, 0x0000, 0xE1A1]);
    c8.registers.v[1] = 4;
    c8.input.keys_status[4] = true;
    assert_eq!(c8.step(0), Ok(()));
    assert_eq!(c8.registers.pc, 0x204);
    assert_eq!(c8.step(0), Ok(()));
    assert_eq!(c8.registers.pc, 0x206);
}

#[test]
fn key_test_with_bad_index_fails() {
    let mut c8 = machine(&[0xE19E]);
    c8.registers.v[1] = 16;
    assert_eq!(c8.step(0), Err(Chip8Error::KeyOutOfRange { opcode: 0xE19E }));
}

#[test]
fn fatal_instructions_are_reported() {
    let mut c8 = machine(&[0x0123]);
    assert_eq!(c8.step(0), Err(Chip8Error::MachineCodeCall { opcode: 0x0123 }));
    let mut c8 = machine(&[0xF0FF]);
    assert_eq!(c8.step(0), Err(Chip8Error::UnknownInstruction { opcode: 0xF0FF }));
    let mut c8 = machine(&[0x8128]);
    assert_eq!(c8.step(0), Err(Chip8Error::UnknownAluOperation { opcode: 0x8128 }));
    assert_eq!(c8.registers.pc, 0x200);
    let mut c8 = machine(&[]);
    c8.registers.pc = 0xFFF;
    assert_eq!(c8.step(0), Err(Chip8Error::PcOutOfRange { pc: 0xFFF }));
}

#[test]
fn skips_and_jumps() {
    let mut c8 = machine(&[0x3005, 0x0000, 0x4005, 0x5010, 0x0000, 0x9010, 0xB300]);
    c8.registers.v[0] = 5;
    c8.registers.v[1] = 5;
    assert_eq!(c8.step(0), Ok(()));
    assert_eq!(c8.registers.pc, 0x204);
    assert_eq!(c8.step(0), Ok(()));
    assert_eq!(c8.registers.pc, 0x206);
    assert_eq!(c8.step(0), Ok(()));
    assert_eq!(c8.registers.pc, 0x20A);
    assert_eq!(c8.step(0), Ok(()));
    assert_eq!(c8.registers.pc, 0x20C);
    assert_eq!(c8.step(0), Ok(()));
    assert_eq!(c8.registers.pc, 0x305);
}

#[test]
fn timers_and_index_instructions() {
    let mut c8 = machine(&[0x6A2A, 0xFA15, 0xFA18, 0xFB07, 0xFA1E, 0xF429]);
    c8.registers.v[4] = 0xB;
    for _ in 0..6 {
        assert_eq!(c8.step(0), Ok(()));
    }
    assert_eq!(c8.timers.delay, 0x2A);
    assert_eq!(c8.timers.sound, 0x2A);
    assert_eq!(c8.registers.v[0xB], 0x2A);
    assert_eq!(c8.registers.i, 0xB * 5);
}

#[test]
fn index_add_wraps_at_sixteen_bits() {
    let mut c8 = machine(&[0xF01E]);
    c8.registers.i = 0xFFFF;
    c8.registers.v[0] = 2;
    assert_eq!(c8.step(0), Ok(()));
    assert_eq!(c8.registers.i, 1);
    assert_eq!(c8.registers.v[0xF], 0);
}

#[test]
fn random_is_masked() {
    let mut c8 = machine(&[0xC10F, 0xC200]);
    assert_eq!(c8.step(0xAB), Ok(()));
    assert_eq!(c8.registers.v[1], 0x0B);
    c8.registers.v[2] = 0x55;
    assert_eq!(c8.execute_next_instruction(), Ok(()));
    assert_eq!(c8.registers.v[2], 0);
}

#[test]
fn clear_display_instruction() {
    let mut c8 = machine(&[0xD015, 0x00E0]);
    assert_eq!(c8.step(0), Ok(()));
    assert!(lit_pixels(&c8) > 0);
    assert_eq!(c8.step(0), Ok(()));
    assert_eq!(lit_pixels(&c8), 0);
}

#[test]
fn evaluate_and_set_targets() {
    let mut c8 = Chip8::new();
    c8.registers.v[3] = 9;
    assert_eq!(c8.evaluate_cpu_instr_target(&CPUInstrTarget::VRegister(3), 0), 9);
    assert_eq!(c8.evaluate_cpu_instr_target(&CPUInstrTarget::SpriteAddress(3), 0), 45);
    assert_eq!(c8.evaluate_cpu_instr_target(&CPUInstrTarget::True, 0), 1);
    assert_eq!(c8.evaluate_cpu_instr_target(&CPUInstrTarget::RandomNum(0xF0), 0x3C), 0x30);
    c8.set_cpu_instr_target(CPUInstrTarget::MemoryAddress(0x123), 0x1FF);
    assert_eq!(c8.memory.mem[0x123], 0xFF);
    c8.set_cpu_instr_target(CPUInstrTarget::IRegister, 0x12345);
    assert_eq!(c8.registers.i, 0x2345);
    assert_eq!(c8.evaluate_cpu_instr_target(&CPUInstrTarget::CurrentKeyPressed, 0), 0);
    assert_eq!(c8.registers.pc, 0x1FE);
}

#[test]
fn program_words_from_bytes() {
    assert_eq!(program_8_to_16(&[0x12, 0x34, 0xAB, 0xCD]), vec![0x1234, 0xABCD]);
    assert_eq!(program_8_to_16(&[0x12, 0x34, 0xAB]), vec![0x1234, 0xAB00]);
    assert_eq!(program_8_to_16(&[]), Vec::<u16>::new());
}

#[test]
fn load_program_and_fonts() {
    let c8 = machine(&[0x1234, 0xABCD]);
    assert_eq!(&c8.memory.mem[0x200..0x204], &[0x12, 0x34, 0xAB, 0xCD]);
    assert_eq!(&c8.memory.mem[0..5], &[0xF0, 0x90, 0x90, 0x90, 0xF0]);
    assert_eq!(&c8.memory.mem[75..80], &[0xF0, 0x80, 0xF0, 0x80, 0x80]);
    assert_eq!(c8.memory.mem[80], 0);
    assert_eq!(c8.memory.get_memory_at_u16(0x202), 0xABCD);
}

#[test]
fn host_surface() {
    let mut c8 = Chip8::new();
    reset_inst(&mut c8);
    assert_eq!(c8.memory.mem[5], 0x20);
    load_program(&mut c8, &[0x6005, 0xF015, 0xF018, 0x1206]);
    assert_eq!(execute_instructions(&mut c8, 4), Ok(()));
    assert_eq!(c8.registers.pc, 0x206);
    assert_eq!(timer_tick_and_get_sound(&mut c8), true);
    assert_eq!(c8.timers.delay, 4);
    for _ in 0..3 {
        timer_tick_and_get_sound(&mut c8);
    }
    assert_eq!(timer_tick_and_get_sound(&mut c8), false);
    assert_eq!(c8.timers.delay, 0);
    assert_eq!(timer_tick_and_get_sound(&mut c8), false);
    reset_pc(&mut c8);
    assert_eq!(c8.registers.pc, 0x200);
    update_keys_status(&mut c8, &[0, 1, 2, 1]);
    assert_eq!(&c8.input.keys_status[0..5], &[false, true, false, true, false]);
    assert_eq!(c8.input.get_current_key(), Some(1));
}

#[test]
fn execute_instructions_stops_at_fault() {
    let mut c8 = machine(&[0x6001, 0x0000, 0x6002]);
    assert_eq!(
        execute_instructions(&mut c8, 10),
        Err(Chip8Error::MachineCodeCall { opcode: 0x0000 })
    );
    assert_eq!(c8.registers.v[0], 1);
    assert_eq!(c8.registers.pc, 0x202);
}

#[test]
fn display_views() {
    let mut c8 = Chip8::new();
    assert!(!c8.output.toggle_pixel(64 + 1, 32));
    let s = get_display_as_str(&c8);
    assert_eq!(s.lines().count(), 32);
    let first: String = s.lines().next().unwrap().chars().take(4).collect();
    assert_eq!(first, "\u{2592}\u{2592}\u{2593}\u{2593}");
    assert_eq!(s.chars().count(), 32 * (64 * 2 + 1));
    let ints = get_display_as_ints(&c8);
    assert_eq!(ints.len(), 2048);
    assert_eq!(ints[1], 1);
    assert_eq!(ints.iter().map(|&b| b as usize).sum::<usize>(), 1);
    let rows = c8.output.get_display_as_ints();
    assert_eq!(rows.len(), 32);
    assert_eq!(rows[0][1], 1);
    assert!(c8.output.toggle_pixel(1, 0));
    assert_eq!(lit_pixels(&c8), 0);
}

#[test]
fn sprite_rows_from_memory() {
    let mut mem = Chip8Memory::new();
    mem.mem[10] = 0b1010_0001;
    let sprite = Chip8Sprite::new(&mem, 10, 1);
    assert_eq!(sprite.pixels, vec![[W, B, W, B, B, B, B, W]]);
    let mut out = Chip8Output::new();
    assert!(!out.draw_sprite_on_display(0, 0, sprite));
    assert_eq!(out.get_display()[0][2], W);
    out.clear_display();
    assert_eq!(out.display[0][2], B);
}

#[test]
fn components_start_blank() {
    let regs = Chip8Registers::new();
    assert_eq!(regs.pc, 0x200);
    assert_eq!(*regs.get_i_register(), 0);
    let mut regs = regs;
    *regs.get_v_register_mut(3) = 8;
    assert_eq!(*regs.get_v_register(3), 8);
    regs.jump_to(0x300);
    regs.skip_next_instr();
    assert_eq!(*regs.get_pc_register(), 0x302);
    let mut t = Chip8Timers::new();
    *t.get_delay_mut() = 1;
    *t.get_sound_mut() = 0;
    t.timer_tick();
    assert_eq!((*t.get_delay(), *t.get_sound()), (0, 0));
    let mut input = Chip8Input::new();
    assert_eq!(input.get_current_key(), None);
    input.get_keys_status_mut()[0xF] = true;
    assert_eq!(input.await_key_press(), 0xF);
    assert!(input.get_keys_status()[0xF]);
}
