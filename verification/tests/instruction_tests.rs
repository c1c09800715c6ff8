use chip8::{Failure, Fault, InputState, KeyCode, Progress, CPU};

fn machine_with(registers: &[(usize, u8)]) -> CPU {
    let mut init_registers = [0u8; 16];
    for (index, value) in registers {
        init_registers[*index] = *value;
    }
    CPU::new(init_registers, Vec::new())
}

#[test]
fn a_new_machine_holds_the_boot_image_and_the_program() {
    let cpu = CPU::new_with_memory(vec![0xAB, 0xCD]);
    assert_eq!(cpu.program_counter(), 0);
    assert_eq!(cpu.pointer_register(), 0);
    assert_eq!(cpu.stack_depth(), 0);
    assert_eq!(cpu.input_state(), InputState::Running);
    assert_eq!(cpu.peek_memory(0), Ok(0x12));
    assert_eq!(cpu.peek_memory(1), Ok(0x00));
    // The glyph of 0 and the last byte of the glyph of F.
    assert_eq!(cpu.peek_memory(2), Ok(0xF0));
    assert_eq!(cpu.peek_memory(3), Ok(0x90));
    assert_eq!(cpu.peek_memory(81), Ok(0x80));
    assert_eq!(cpu.peek_memory(82), Ok(0x00));
    assert_eq!(cpu.peek_memory(0x200), Ok(0xAB));
    assert_eq!(cpu.peek_memory(0x201), Ok(0xCD));
    assert_eq!(cpu.peek_memory(0x202), Ok(0x00));
    assert_eq!(cpu.peek_memory(0xFFF), Ok(0x00));
    assert_eq!(cpu.peek_memory(0x1000), Err(Fault::MemoryOutOfBounds));
    for index in 0..16 {
        assert_eq!(cpu.peek_register(index), 0);
    }
    assert!(!cpu.display().is_dirty());
}

#[test]
fn a_program_may_fill_memory_to_its_end() {
    let mut program = vec![0u8; 0xE00];
    program[0xDFF] = 0x5A;
    let cpu = CPU::new_with_memory(program);
    assert_eq!(cpu.peek_memory(0xFFF), Ok(0x5A));
}

#[test]
fn a_program_must_fit_in_memory() {
    let cpu = CPU::try_new([7; 16], vec![0x11; 0xE00]).unwrap();
    assert_eq!(cpu.peek_memory(0x1FF), Ok(0));
    assert_eq!(cpu.peek_memory(0x200), Ok(0x11));
    assert_eq!(cpu.peek_memory(0xFFF), Ok(0x11));
    assert_eq!(cpu.peek_register(15), 7);
    assert_eq!(CPU::try_new([0; 16], vec![0; 0xE01]).err(), Some(Fault::MemoryOutOfBounds));
}

#[test]
fn the_first_cycle_jumps_to_the_program() {
    let mut cpu = CPU::default();
    assert_eq!(cpu.read_opcode(), 0x1200);
    assert_eq!(cpu.emulate_cycle(), Ok(Progress::Running));
    assert_eq!(cpu.program_counter(), 0x200);
}

#[test]
fn read_register_checks_the_index() {
    let cpu = machine_with(&[(3, 9)]);
    assert_eq!(cpu.read_register(3), Ok(9));
    assert_eq!(cpu.read_register(15), Ok(0));
    assert_eq!(cpu.read_register(16), Err(Fault::RegisterIndexOutOfRange));
}

#[test]
fn add_registers_wraps_and_carries() {
    let mut cpu = machine_with(&[(0, 200), (1, 100), (2, 1), (3, 2)]);
    assert_eq!(cpu.add_registers(0, 1), Ok(()));
    assert_eq!(cpu.peek_register(0), 44);
    assert_eq!(cpu.peek_register(0xF), 1);
    assert_eq!(cpu.add_registers(2, 3), Ok(()));
    assert_eq!(cpu.peek_register(2), 3);
    assert_eq!(cpu.peek_register(0xF), 0);
}

#[test]
fn add_registers_reaches_256_exactly() {
    let mut cpu = machine_with(&[(4, 255), (5, 1)]);
    assert_eq!(cpu.add_registers(4, 5), Ok(()));
    assert_eq!(cpu.peek_register(4), 0);
    assert_eq!(cpu.peek_register(0xF), 1);
    let mut cpu = machine_with(&[(4, 254), (5, 1)]);
    assert_eq!(cpu.add_registers(4, 5), Ok(()));
    assert_eq!(cpu.peek_register(4), 255);
    assert_eq!(cpu.peek_register(0xF), 0);
}

#[test]
fn add_registers_into_the_flag_register_leaves_the_carry() {
    let mut cpu = machine_with(&[(0xF, 1), (1, 1)]);
    assert_eq!(cpu.add_registers(0xF, 1), Ok(()));
    assert_eq!(cpu.peek_register(0xF), 0);
    let mut cpu = machine_with(&[(0xF, 200), (1, 100)]);
    assert_eq!(cpu.add_registers(0xF, 1), Ok(()));
    assert_eq!(cpu.peek_register(0xF), 1);
}

#[test]
fn add_constant_wraps_without_flag() {
    let mut cpu = machine_with(&[(0, 0xFF), (0xF, 7)]);
    assert_eq!(cpu.add_constant(0, 2), Ok(()));
    assert_eq!(cpu.peek_register(0), 1);
    assert_eq!(cpu.peek_register(0xF), 7);
}

#[test]
fn sub_registers_borrows() {
    let mut cpu = machine_with(&[(0, 1), (1, 2), (2, 9), (3, 9)]);
    assert_eq!(cpu.sub_registers(0, 1), Ok(()));
    assert_eq!(cpu.peek_register(0), 255);
    assert_eq!(cpu.peek_register(0xF), 1);
    assert_eq!(cpu.sub_registers(2, 3), Ok(()));
    assert_eq!(cpu.peek_register(2), 0);
    assert_eq!(cpu.peek_register(0xF), 0);
}

#[test]
fn sub_registers_swapped_borrows() {
    let mut cpu = machine_with(&[(0, 10), (1, 8)]);
    assert_eq!(cpu.sub_registers_swapped(0, 1), Ok(()));
    assert_eq!(cpu.peek_register(0), 254);
    assert_eq!(cpu.peek_register(1), 8);
    assert_eq!(cpu.peek_register(0xF), 1);
}

#[test]
fn shift_right_moves_the_low_bit_to_the_flag() {
    let mut cpu = machine_with(&[(0, 5), (1, 0x80)]);
    assert_eq!(cpu.shift_right(0), Ok(()));
    assert_eq!(cpu.peek_register(0), 2);
    assert_eq!(cpu.peek_register(0xF), 1);
    assert_eq!(cpu.shift_right(1), Ok(()));
    assert_eq!(cpu.peek_register(1), 0x40);
    assert_eq!(cpu.peek_register(0xF), 0);
}

#[test]
fn shift_right_of_the_flag_register_shifts_the_flag() {
    let mut cpu = machine_with(&[(0xF, 3)]);
    assert_eq!(cpu.shift_right(0xF), Ok(()));
    assert_eq!(cpu.peek_register(0xF), 0);
}

#[test]
fn shift_left_moves_the_high_bit_to_the_flag() {
    let mut cpu = machine_with(&[(0, 0x81), (1, 0x40)]);
    assert_eq!(cpu.shift_left(0), Ok(()));
    assert_eq!(cpu.peek_register(0), 2);
    assert_eq!(cpu.peek_register(0xF), 1);
    assert_eq!(cpu.shift_left(1), Ok(()));
    assert_eq!(cpu.peek_register(1), 0x80);
    assert_eq!(cpu.peek_register(0xF), 0);
}

#[test]
fn bitwise_operations() {
    let mut cpu = machine_with(&[(0, 0b1100), (1, 0b1010)]);
    assert_eq!(cpu.or(0, 1), Ok(()));
    assert_eq!(cpu.peek_register(0), 0b1110);
    let mut cpu = machine_with(&[(0, 0b1100), (1, 0b1010)]);
    assert_eq!(cpu.and(0, 1), Ok(()));
    assert_eq!(cpu.peek_register(0), 0b1000);
    let mut cpu = machine_with(&[(0, 0b1100), (1, 0b1010)]);
    assert_eq!(cpu.xor(0, 1), Ok(()));
    assert_eq!(cpu.peek_register(0), 0b0110);
    assert_eq!(cpu.copy_second_to_first(2, 1), Ok(()));
    assert_eq!(cpu.peek_register(2), 0b1010);
}

#[test]
fn every_register_instruction_checks_its_indices() {
    let out_of_range = Err(Fault::RegisterIndexOutOfRange);
    let mut cpu = machine_with(&[(0, 1)]);
    assert_eq!(cpu.add_registers(16, 0), out_of_range);
    assert_eq!(cpu.add_registers(0, 16), out_of_range);
    assert_eq!(cpu.add_constant(16, 1), out_of_range);
    assert_eq!(cpu.sub_registers(0, 200), out_of_range);
    assert_eq!(cpu.sub_registers_swapped(17, 0), out_of_range);
    assert_eq!(cpu.or(16, 0), out_of_range);
    assert_eq!(cpu.and(0, 16), out_of_range);
    assert_eq!(cpu.xor(255, 0), out_of_range);
    assert_eq!(cpu.copy_second_to_first(0, 16), out_of_range);
    assert_eq!(cpu.shift_left(16), out_of_range);
    assert_eq!(cpu.shift_right(16), out_of_range);
    assert_eq!(cpu.load_in_register(16, 1), out_of_range);
    assert_eq!(cpu.skip_if_equal(16, 0), out_of_range);
    assert_eq!(cpu.skip_if_different(16, 0), out_of_range);
    assert_eq!(cpu.skip_if_equal_registers(16, 0), out_of_range);
    assert_eq!(cpu.skip_if_different_registers(0, 16), out_of_range);
    assert_eq!(cpu.store_masked(16, 0xFF, 1), out_of_range);
    assert_eq!(cpu.random_and_constant_in(16, 0xFF), out_of_range);
    assert_eq!(cpu.add_to_pointer_register(16), out_of_range);
    assert_eq!(cpu.point_to_font_char(16), out_of_range);
    assert_eq!(cpu.store_as_bcd(16), out_of_range);
    assert_eq!(cpu.store_registers_up_to(16), out_of_range);
    assert_eq!(cpu.load_registers_up_to(16), out_of_range);
    assert_eq!(cpu.draw_at(16, 0, 1), out_of_range);
    assert_eq!(cpu.draw_at(0, 16, 1), out_of_range);
    assert_eq!(cpu.wait_and_store_key_in(16), out_of_range);
    // A fault leaves the machine as it was.
    assert_eq!(cpu.peek_register(0), 1);
    assert_eq!(cpu.program_counter(), 0);
    assert_eq!(cpu.pointer_register(), 0);
    assert_eq!(cpu.input_state(), InputState::Running);
}

#[test]
fn jump_targets_end_one_byte_before_the_end_of_memory() {
    let mut cpu = CPU::default();
    assert_eq!(cpu.jump_to(0xFFE), Ok(()));
    assert_eq!(cpu.program_counter(), 0xFFE);
    assert_eq!(cpu.jump_to(0xFFF), Err(Fault::IllegalJumpTarget));
    assert_eq!(cpu.jump_to(0x1000), Err(Fault::IllegalJumpTarget));
    assert_eq!(cpu.jump_to(0xFFFF), Err(Fault::IllegalJumpTarget));
    assert_eq!(cpu.program_counter(), 0xFFE);
    assert_eq!(cpu.jump_to(0), Ok(()));
    assert_eq!(cpu.program_counter(), 0);
    assert!(CPU::is_legal_address(0xFFE));
    assert!(!CPU::is_legal_address(0xFFF));
}

#[test]
fn offset_jump_adds_register_zero() {
    let mut cpu = machine_with(&[(0, 0xFF)]);
    assert_eq!(cpu.offset_jump_to(0x300), Ok(()));
    assert_eq!(cpu.program_counter(), 0x3FF);
    assert_eq!(cpu.offset_jump_to(0xF00), Err(Fault::IllegalJumpTarget));
    assert_eq!(cpu.offset_jump_to(0xEFF), Ok(()));
    assert_eq!(cpu.program_counter(), 0xFFE);
    assert_eq!(cpu.offset_jump_to(0xFFFF), Err(Fault::IllegalJumpTarget));
}

#[test]
fn skips_move_over_one_instruction() {
    let mut cpu = machine_with(&[(0, 7), (1, 7), (2, 8)]);
    assert_eq!(cpu.skip_if_equal(0, 7), Ok(()));
    assert_eq!(cpu.program_counter(), 2);
    assert_eq!(cpu.skip_if_equal(0, 8), Ok(()));
    assert_eq!(cpu.program_counter(), 2);
    assert_eq!(cpu.skip_if_different(0, 8), Ok(()));
    assert_eq!(cpu.program_counter(), 4);
    assert_eq!(cpu.skip_if_different(0, 7), Ok(()));
    assert_eq!(cpu.program_counter(), 4);
    assert_eq!(cpu.skip_if_equal_registers(0, 1), Ok(()));
    assert_eq!(cpu.program_counter(), 6);
    assert_eq!(cpu.skip_if_equal_registers(0, 2), Ok(()));
    assert_eq!(cpu.program_counter(), 6);
    assert_eq!(cpu.skip_if_different_registers(0, 2), Ok(()));
    assert_eq!(cpu.program_counter(), 8);
    assert_eq!(cpu.skip_if_different_registers(0, 1), Ok(()));
    assert_eq!(cpu.program_counter(), 8);
}

#[test]
fn a_skip_cannot_leave_memory() {
    let mut cpu = machine_with(&[(0, 7)]);
    assert_eq!(cpu.jump_to(0xFFD), Ok(()));
    assert_eq!(cpu.skip_if_equal(0, 7), Err(Fault::IllegalJumpTarget));
    assert_eq!(cpu.program_counter(), 0xFFD);
    assert_eq!(cpu.skip_if_equal(0, 8), Ok(()));
    assert_eq!(cpu.jump_to(0xFFC), Ok(()));
    assert_eq!(cpu.skip_if_equal(0, 7), Ok(()));
    assert_eq!(cpu.program_counter(), 0xFFE);
}

#[test]
fn calls_and_returns_balance() {
    let mut cpu = CPU::default();
    assert_eq!(cpu.jump_to(0x200), Ok(()));
    let mut counters = vec![cpu.program_counter()];
    for depth in 0..16u16 {
        assert_eq!(cpu.call(0x300 + 2 * depth), Ok(()));
        assert_eq!(cpu.stack_depth(), depth as usize + 1);
        counters.push(cpu.program_counter());
    }
    assert_eq!(counters[16], 0x31E);
    for depth in (0..16).rev() {
        assert_eq!(cpu.ret(), Ok(()));
        assert_eq!(cpu.stack_depth(), depth);
        assert_eq!(cpu.program_counter(), counters[depth]);
    }
    assert_eq!(cpu.program_counter(), 0x200);
    assert_eq!(cpu.ret(), Err(Fault::StackUnderflow));
}

#[test]
fn the_seventeenth_call_overflows() {
    let mut cpu = CPU::default();
    for _ in 0..16 {
        assert_eq!(cpu.call(0x400), Ok(()));
    }
    assert_eq!(cpu.call(0x400), Err(Fault::StackOverflow));
    assert_eq!(cpu.stack_depth(), 16);
    assert_eq!(cpu.ret(), Ok(()));
    assert_eq!(cpu.call(0x400), Ok(()));
}

#[test]
fn a_call_checks_its_target() {
    let mut cpu = CPU::default();
    assert_eq!(cpu.call(0xFFF), Err(Fault::IllegalJumpTarget));
    assert_eq!(cpu.stack_depth(), 0);
    assert_eq!(cpu.program_counter(), 0);
}

#[test]
fn the_pointer_register_wraps() {
    let mut cpu = machine_with(&[(0, 0xFF), (1, 2)]);
    cpu.set_pointer_register(0xFFFF);
    assert_eq!(cpu.pointer_register(), 0xFFFF);
    assert_eq!(cpu.add_to_pointer_register(1), Ok(()));
    assert_eq!(cpu.pointer_register(), 1);
    assert_eq!(cpu.add_to_pointer_register(0), Ok(()));
    assert_eq!(cpu.pointer_register(), 0x100);
}

#[test]
fn font_glyphs_are_five_bytes_apart() {
    let mut cpu = machine_with(&[(0, 0), (1, 0xA), (2, 0xF), (3, 0x10)]);
    assert_eq!(cpu.point_to_font_char(0), Ok(()));
    assert_eq!(cpu.pointer_register(), 2);
    assert_eq!(cpu.point_to_font_char(1), Ok(()));
    assert_eq!(cpu.pointer_register(), 52);
    assert_eq!(cpu.peek_memory(52), Ok(0xF0));
    assert_eq!(cpu.peek_memory(56), Ok(0x90));
    assert_eq!(cpu.point_to_font_char(2), Ok(()));
    assert_eq!(cpu.pointer_register(), 77);
    assert_eq!(cpu.point_to_font_char(3), Err(Fault::UnrepresentableCharacter));
    assert_eq!(cpu.pointer_register(), 77);
}

#[test]
fn bcd_digits() {
    for (value, digits) in [(192u8, [1u8, 9, 2]), (255, [2, 5, 5]), (7, [0, 0, 7]), (0, [0, 0, 0]), (100, [1, 0, 0])] {
        let mut cpu = machine_with(&[(4, value)]);
        cpu.set_pointer_register(0x300);
        assert_eq!(cpu.store_as_bcd(4), Ok(()));
        assert_eq!(cpu.peek_memory(0x300), Ok(digits[0]));
        assert_eq!(cpu.peek_memory(0x301), Ok(digits[1]));
        assert_eq!(cpu.peek_memory(0x302), Ok(digits[2]));
        assert_eq!(cpu.peek_memory(0x303), Ok(0));
    }
}

#[test]
fn bcd_stays_within_memory() {
    let mut cpu = machine_with(&[(0, 123)]);
    cpu.set_pointer_register(0xFFD);
    assert_eq!(cpu.store_as_bcd(0), Ok(()));
    assert_eq!(cpu.peek_memory(0xFFF), Ok(3));
    cpu.set_pointer_register(0xFFE);
    assert_eq!(cpu.store_as_bcd(0), Err(Fault::MemoryOutOfBounds));
    assert_eq!(cpu.peek_memory(0xFFE), Ok(2));
    assert_eq!(cpu.peek_memory(0xFFF), Ok(3));
}

#[test]
fn store_and_load_stay_within_memory() {
    let mut cpu = machine_with(&[(0, 1), (1, 2), (2, 3)]);
    cpu.set_pointer_register(0xFFD);
    assert_eq!(cpu.store_registers_up_to(2), Ok(()));
    assert_eq!(cpu.peek_memory(0xFFC), Ok(0));
    assert_eq!(cpu.peek_memory(0xFFD), Ok(1));
    assert_eq!(cpu.peek_memory(0xFFE), Ok(2));
    assert_eq!(cpu.peek_memory(0xFFF), Ok(3));
    assert_eq!(cpu.store_registers_up_to(3), Err(Fault::MemoryOutOfBounds));
    assert_eq!(cpu.load_registers_up_to(3), Err(Fault::MemoryOutOfBounds));
    cpu.set_pointer_register(0xFFE);
    assert_eq!(cpu.load_registers_up_to(1), Ok(()));
    assert_eq!(cpu.peek_register(0), 2);
    assert_eq!(cpu.peek_register(1), 3);
    assert_eq!(cpu.peek_register(2), 3);
    assert_eq!(cpu.pointer_register(), 0xFFE);
    cpu.set_pointer_register(0x1000);
    assert_eq!(cpu.store_registers_up_to(0), Err(Fault::MemoryOutOfBounds));
    assert_eq!(cpu.load_registers_up_to(0), Err(Fault::MemoryOutOfBounds));
}

#[test]
fn store_of_all_registers() {
    let mut init_registers = [0u8; 16];
    for index in 0..16 {
        init_registers[index] = 0x10 + index as u8;
    }
    let mut cpu = CPU::new(init_registers, Vec::new());
    cpu.set_pointer_register(0x400);
    assert_eq!(cpu.store_registers_up_to(15), Ok(()));
    for index in 0..16 {
        assert_eq!(cpu.peek_memory(0x400 + index), Ok(0x10 + index as u8));
    }
    assert_eq!(cpu.peek_memory(0x3FF), Ok(0));
    assert_eq!(cpu.peek_memory(0x410), Ok(0));
}

#[test]
fn a_masked_random_byte_keeps_only_the_masked_bits() {
    let mut cpu = CPU::default();
    assert_eq!(cpu.store_masked(2, 0x0F, 0xAB), Ok(()));
    assert_eq!(cpu.peek_register(2), 0x0B);
    assert_eq!(cpu.store_masked(2, 0xF0, 0xAB), Ok(()));
    assert_eq!(cpu.peek_register(2), 0xA0);
}

#[test]
fn random_bytes_are_masked_and_vary() {
    let mut cpu = CPU::default();
    let mut seen = [false; 256];
    for _ in 0..2000 {
        assert_eq!(cpu.random_and_constant_in(1, 0x0F), Ok(()));
        assert!(cpu.peek_register(1) < 16);
        assert_eq!(cpu.random_and_constant_in(2, 0xFF), Ok(()));
        seen[cpu.peek_register(2) as usize] = true;
    }
    assert!(seen.iter().filter(|hit| **hit).count() > 100);
    assert_eq!(cpu.random_and_constant_in(3, 0), Ok(()));
    assert_eq!(cpu.peek_register(3), 0);
}

#[test]
fn a_random_instruction_in_a_program() {
    let mut cpu = CPU::new_with_memory(vec![0x65, 0xFF, 0xC5, 0x03]);
    assert_eq!(cpu.run(), Ok(Progress::Halted));
    assert!(cpu.peek_register(5) < 4);
    let mut cpu = CPU::new_with_memory(vec![0x65, 0xFF, 0xC5, 0x3C]);
    assert_eq!(cpu.emulate_cycle_with(0xFF), Ok(Progress::Running));
    assert_eq!(cpu.emulate_cycle_with(0xFF), Ok(Progress::Running));
    assert_eq!(cpu.emulate_cycle_with(0xA5), Ok(Progress::Running));
    assert_eq!(cpu.peek_register(5), 0x24);
}

#[test]
fn an_unknown_word_is_a_failure_with_its_address() {
    for word in [0xE09Eu16, 0x0001, 0x00E1, 0x5121, 0x8008, 0x9001, 0xF007, 0xF0FF] {
        let mut cpu = CPU::new_with_memory(vec![0x60, 0x01, (word >> 8) as u8, word as u8]);
        assert_eq!(
            cpu.run(),
            Err(Failure { fault: Fault::UnimplementedOpcode, program_counter: 0x202, opcode: word })
        );
        assert_eq!(cpu.program_counter(), 0x204);
        assert_eq!(cpu.peek_register(0), 1);
    }
}

#[test]
fn a_failing_instruction_is_reported_with_its_address() {
    let mut cpu = CPU::new_with_memory(vec![0x1F, 0xFF]);
    assert_eq!(
        cpu.run(),
        Err(Failure { fault: Fault::IllegalJumpTarget, program_counter: 0x200, opcode: 0x1FFF })
    );
    assert_eq!(cpu.program_counter(), 0x202);
    let mut cpu = CPU::new_with_memory(vec![0x00, 0xEE]);
    assert_eq!(
        cpu.run(),
        Err(Failure { fault: Fault::StackUnderflow, program_counter: 0x200, opcode: 0x00EE })
    );
    let mut cpu = CPU::new_with_memory(vec![0x60, 0x10, 0xF0, 0x29]);
    assert_eq!(
        cpu.run(),
        Err(Failure {
            fault: Fault::UnrepresentableCharacter,
            program_counter: 0x202,
            opcode: 0xF029
        })
    );
    let mut cpu = CPU::new_with_memory(vec![0xAF, 0xFF, 0xF0, 0x33]);
    assert_eq!(
        cpu.run(),
        Err(Failure { fault: Fault::MemoryOutOfBounds, program_counter: 0x202, opcode: 0xF033 })
    );
    let mut cpu = CPU::new_with_memory(vec![0x20, 0x00].repeat(16));
    assert_eq!(
        cpu.run(),
        Err(Failure { fault: Fault::StackOverflow, program_counter: 0x200, opcode: 0x2000 })
    );
}

#[test]
fn the_program_counter_cannot_run_off_the_end() {
    let mut cpu = CPU::default();
    assert_eq!(cpu.jump_to(0xFFE), Ok(()));
    assert_eq!(
        cpu.emulate_cycle(),
        Err(Failure { fault: Fault::IllegalJumpTarget, program_counter: 0xFFE, opcode: 0x0000 })
    );
    assert_eq!(cpu.program_counter(), 0xFFE);
    assert_eq!(cpu.jump_to(0xFFC), Ok(()));
    assert_eq!(cpu.emulate_cycle(), Ok(Progress::Halted));
    assert_eq!(cpu.program_counter(), 0xFFE);
}

#[test]
fn halt_stops_the_run_behind_the_instruction() {
    let mut cpu = CPU::new_with_memory(vec![0x60, 0x01, 0x00, 0x00, 0x60, 0x02]);
    assert_eq!(cpu.run(), Ok(Progress::Halted));
    assert_eq!(cpu.peek_register(0), 1);
    assert_eq!(cpu.program_counter(), 0x204);
    assert_eq!(cpu.run(), Ok(Progress::Halted));
    assert_eq!(cpu.peek_register(0), 2);
}

#[test]
fn a_run_ends_with_its_cycles() {
    let mut cpu = CPU::new_with_memory(vec![0x70, 0x01, 0x12, 0x00]);
    assert_eq!(cpu.run_for(0), Ok(Progress::Running));
    assert_eq!(cpu.program_counter(), 0);
    assert_eq!(cpu.run_for(1), Ok(Progress::Running));
    assert_eq!(cpu.program_counter(), 0x200);
    assert_eq!(cpu.run_for(20), Ok(Progress::Running));
    assert_eq!(cpu.peek_register(0), 10);
    assert_eq!(cpu.program_counter(), 0x200);
    assert_eq!(cpu.run_for(1001), Ok(Progress::Running));
    assert_eq!(cpu.peek_register(0), (10 + 501) as u8);
}

#[test]
fn waiting_for_a_key_suspends_the_machine() {
    let mut cpu = CPU::new_with_memory(vec![0xF3, 0x0A, 0x73, 0x01]);
    assert_eq!(cpu.run(), Ok(Progress::WaitingForKey));
    assert_eq!(cpu.input_state(), InputState::WaitingForKey { register: 3 });
    assert_eq!(cpu.program_counter(), 0x202);
    // No instruction is fetched while the machine waits.
    assert_eq!(cpu.emulate_cycle(), Ok(Progress::WaitingForKey));
    assert_eq!(cpu.run_for(10), Ok(Progress::WaitingForKey));
    assert_eq!(cpu.program_counter(), 0x202);
    assert_eq!(cpu.peek_register(3), 0);
    // An event that is no key of the keypad is ignored.
    cpu.key_down(16);
    cpu.key_down(0xFF);
    cpu.key_pressed(KeyCode::Other);
    assert_eq!(cpu.input_state(), InputState::WaitingForKey { register: 3 });
    cpu.key_down(0xB);
    assert_eq!(cpu.input_state(), InputState::Running);
    assert_eq!(cpu.peek_register(3), 0xB);
    // A key that goes down while the machine runs is ignored.
    cpu.key_down(0x1);
    assert_eq!(cpu.peek_register(3), 0xB);
    assert_eq!(cpu.run(), Ok(Progress::Halted));
    assert_eq!(cpu.peek_register(3), 0xC);
}

#[test]
fn a_keyboard_key_stands_for_a_keypad_key() {
    let mut cpu = CPU::new_with_memory(vec![0xF0, 0x0A, 0xF1, 0x0A]);
    assert_eq!(cpu.run(), Ok(Progress::WaitingForKey));
    cpu.key_pressed(KeyCode::Q);
    assert_eq!(cpu.peek_register(0), 4);
    assert_eq!(cpu.run(), Ok(Progress::WaitingForKey));
    assert_eq!(cpu.input_state(), InputState::WaitingForKey { register: 1 });
    cpu.key_pressed(KeyCode::X);
    assert_eq!(cpu.peek_register(1), 0);
    assert_eq!(cpu.input_state(), InputState::Running);
}

#[test]
fn fault_messages() {
    assert_eq!(Fault::StackOverflow.message(), "Stack overflow!");
    assert_eq!(Fault::StackUnderflow.message(), "Stack underflow!");
    assert_eq!(Fault::IllegalJumpTarget.message(), "Jumping to illegal address!");
    assert_eq!(Fault::MemoryOutOfBounds.message(), "Memory access out of bounds!");
    assert_eq!(Fault::RegisterIndexOutOfRange.message(), "Register index out of bounds!");
    assert_eq!(Fault::UnrepresentableCharacter.message(), "Unrepresentable character!");
    assert_eq!(Fault::UnimplementedOpcode.message(), "Unimplemented opcode!");
}
