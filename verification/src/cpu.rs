//! The executable machine.

use crate::display::{rgba, Frame, VirtualDisplay};
use crate::fault::{Failure, Fault};
use crate::keypad::{key_value, logical_key, KeyCode};
use crate::machine::{
    boot_image, legal_address, InputState, Machine, Progress, MEMORY_SIZE, PROGRAM_CAPACITY,
};
use crate::opcode::{decode, nibbles, Instruction};
use crate::random::random_byte;
use vstd::prelude::*;
use vstd::slice::slice_subrange;

verus! {

/// A CHIP-8 machine: registers, memory, call stack, display and input state.
pub struct CPU {
    registers: [u8; 16],
    program_counter: usize,
    memory: [u8; 0x1000],
    stack: [u16; 16],
    stack_pointer: usize,
    pointer_register: u16,
    display: VirtualDisplay,
    input: InputState,
}

impl View for CPU {
    type V = Machine;

    closed spec fn view(&self) -> Machine {
        Machine {
            registers: self.registers@,
            pointer_register: self.pointer_register,
            memory: self.memory@,
            program_counter: self.program_counter as int,
            stack: self.stack@.take(self.stack_pointer as int),
            display: self.display@,
            input: self.input,
        }
    }
}

/// Whether a step that was to yield `expected` has led from `before` to
/// `after` with `result`: on success the machine is the expected one, on a
/// fault it is unchanged and the fault is reported.
pub open spec fn transition(
    before: Machine,
    expected: Result<Machine, Fault>,
    after: Machine,
    result: Result<(), Fault>,
) -> bool {
    match expected {
        Ok(machine) => after == machine && result is Ok,
        Err(fault) => after == before && result == Err::<(), Fault>(fault),
    }
}

impl CPU {
    /// The invariant of the machine.
    pub closed spec fn wf(&self) -> bool {
        self.stack_pointer <= 16 && self@.wf()
    }

    /// A well-formed machine has a well-formed model.
    pub proof fn lemma_view_wf(&self)
        requires
            self.wf(),
        ensures
            self@.wf(),
    {
    }

    /// The machine as it is switched on: the boot image at the start of
    /// memory, every register, every other byte and every cell zero.
    pub fn default() -> (cpu: CPU)
        ensures
            cpu.wf(),
            cpu@ == Machine::boot(Seq::new(16, |index: int| 0u8), Seq::empty()),
    {
        let mut memory = [0u8;0x1000];
        let init_memory: [u8; 82] = [
            0x12, 0x00,
            0xF0, 0x90, 0x90, 0x90, 0xF0,
            0x20, 0x60, 0x20, 0x20, 0x70,
            0xF0, 0x10, 0xF0, 0x80, 0xF0,
            0xF0, 0x10, 0xF0, 0x10, 0xF0,
            0x90, 0x90, 0xF0, 0x10, 0x10,
            0xF0, 0x80, 0xF0, 0x10, 0xF0,
            0xF0, 0x80, 0xF0, 0x90, 0xF0,
            0xF0, 0x10, 0x20, 0x40, 0x40,
            0xF0, 0x90, 0xF0, 0x90, 0xF0,
            0xF0, 0x90, 0xF0, 0x10, 0xF0,
            0xF0, 0x90, 0xF0, 0x90, 0x90,
            0xE0, 0x90, 0xE0, 0x90, 0xE0,
            0xF0, 0x80, 0x80, 0x80, 0xF0,
            0xE0, 0x90, 0x90, 0x90, 0xE0,
            0xF0, 0x80, 0xF0, 0x80, 0xF0,
            0xF0, 0x80, 0xF0, 0x80, 0x80,
        ];
        assert(init_memory@ =~= boot_image());
        let mut address: usize = 0;
        while address < 82
            invariant
                address <= 82,
                init_memory@ == boot_image(),
                forall|i: int|
                    0 <= i < 0x1000 ==> memory@[i] == if i < address {
                        boot_image()[i]
                    } else {
                        0u8
                    },
            decreases 82 - address,
        {
            memory[address] = init_memory[address];
            address += 1;
        }
        let cpu = CPU {
            registers: [0u8;16],
            program_counter: 0,
            memory,
            stack: [0u16;16],
            stack_pointer: 0,
            pointer_register: 0,
            display: VirtualDisplay::new(),
            input: InputState::Running,
        };
        assert(cpu@ =~= Machine::boot(Seq::new(16, |index: int| 0u8), Seq::empty()));
        cpu
    }

    /// The machine as it is switched on, with the given registers and with
    /// `memory_init` as its program.
    pub fn new(registers: [u8; 16], memory_init: Vec<u8>) -> (cpu: CPU)
        requires
            memory_init@.len() <= PROGRAM_CAPACITY,
        ensures
            cpu.wf(),
            cpu@ == Machine::boot(registers@, memory_init@),
    {
        let mut cpu = CPU::default();
        cpu.registers = registers;
        let length = memory_init.len();
        let mut offset: usize = 0;
        while offset < length
            invariant
                length == memory_init@.len(),
                length <= 0xE00,
                offset <= length,
                cpu.registers == registers,
                cpu.program_counter == 0,
                cpu.stack_pointer == 0,
                cpu.pointer_register == 0,
                cpu.input == InputState::Running,
                cpu.display@ == Machine::boot(registers@, memory_init@).display,
                forall|i: int|
                    0 <= i < 0x1000 ==> cpu.memory@[i] == if i < 82 {
                        boot_image()[i]
                    } else if 0x200 <= i < 0x200 + offset {
                        memory_init@[i - 0x200]
                    } else {
                        0u8
                    },
            decreases length - offset,
        {
            cpu.memory[0x200 + offset] = memory_init[offset];
            offset += 1;
        }
        assert(cpu@ =~= Machine::boot(registers@, memory_init@));
        cpu
    }

    /// The machine as it is switched on, with `memory_init` as its program.
    pub fn new_with_memory(memory_init: Vec<u8>) -> (cpu: CPU)
        requires
            memory_init@.len() <= PROGRAM_CAPACITY,
        ensures
            cpu.wf(),
            cpu@ == Machine::boot(Seq::new(16, |index: int| 0u8), memory_init@),
    {
        let registers = [0u8;16];
        assert(registers@ =~= Seq::new(16, |index: int| 0u8));
        CPU::new(registers, memory_init)
    }

    /// The machine as it is switched on, with the given registers and with
    /// `memory_init` as its program, if the program fits between
    /// `PROGRAM_START` and the end of memory.
    pub fn try_new(registers: [u8; 16], memory_init: Vec<u8>) -> (loaded: Result<CPU, Fault>)
        ensures
            match loaded {
                Ok(cpu) => memory_init@.len() <= PROGRAM_CAPACITY && cpu.wf() && cpu@
                    == Machine::boot(registers@, memory_init@),
                Err(fault) => memory_init@.len() > PROGRAM_CAPACITY && fault
                    == Fault::MemoryOutOfBounds,
            },
    {
        if memory_init.len() <= 0xE00 {
            Ok(CPU::new(registers, memory_init))
        } else {
            Err(Fault::MemoryOutOfBounds)
        }
    }

    /// The machine that starts at address 0 of the given memory, with the
    /// given registers. No boot image is installed.
    pub fn from_image(registers: [u8; 16], memory: [u8; 0x1000]) -> (cpu: CPU)
        ensures
            cpu.wf(),
            cpu@ == Machine::from_image(registers@, memory@),
    {
        let cpu = CPU {
            registers,
            program_counter: 0,
            memory,
            stack: [0u16;16],
            stack_pointer: 0,
            pointer_register: 0,
            display: VirtualDisplay::new(),
            input: InputState::Running,
        };
        assert(cpu@ =~= Machine::from_image(registers@, memory@));
        cpu
    }

    /// The value of a register.
    pub fn peek_register(&self, register_index: usize) -> (value: u8)
        requires
            self.wf(),
            register_index < 16,
        ensures
            value == self@.registers[register_index as int],
    {
        self.registers[register_index]
    }

    /// The value of a register, if there is one with that index.
    pub fn read_register(&self, register_index: usize) -> (value: Result<u8, Fault>)
        requires
            self.wf(),
        ensures
            register_index < 16 ==> value == Ok::<u8, Fault>(
                self@.registers[register_index as int],
            ),
            register_index >= 16 ==> value == Err::<u8, Fault>(Fault::RegisterIndexOutOfRange),
    {
        if register_index < 16 {
            Ok(self.registers[register_index])
        } else {
            Err(Fault::RegisterIndexOutOfRange)
        }
    }

    /// The address of the next instruction.
    pub fn program_counter(&self) -> (address: usize)
        requires
            self.wf(),
        ensures
            address == self@.program_counter,
    {
        self.program_counter
    }

    /// The value of the address register.
    pub fn pointer_register(&self) -> (address: u16)
        ensures
            address == self@.pointer_register,
    {
        self.pointer_register
    }

    /// The byte of memory at `address`.
    pub fn peek_memory(&self, address: usize) -> (value: Result<u8, Fault>)
        requires
            self.wf(),
        ensures
            address < MEMORY_SIZE ==> value == Ok::<u8, Fault>(self@.memory[address as int]),
            address >= MEMORY_SIZE ==> value == Err::<u8, Fault>(Fault::MemoryOutOfBounds),
    {
        if address < 0x1000 {
            Ok(self.memory[address])
        } else {
            Err(Fault::MemoryOutOfBounds)
        }
    }

    /// The number of calls that have not returned yet.
    pub fn stack_depth(&self) -> (depth: usize)
        requires
            self.wf(),
        ensures
            depth == self@.stack.len(),
    {
        self.stack_pointer
    }

    /// Whether the machine runs or waits for a key.
    pub fn input_state(&self) -> (input: InputState)
        ensures
            input == self@.input,
    {
        self.input
    }

    /// The display, for the host to present.
    pub fn display(&self) -> (display: &VirtualDisplay)
        ensures
            display@ == self@.display,
    {
        &self.display
    }

    /// The instruction word at the program counter, high byte first.
    pub fn read_opcode(&self) -> (op_code: u16)
        requires
            self.wf(),
        ensures
            op_code == self@.read_opcode(),
    {
        let pc = self.program_counter;
        let op_byte1 = self.memory[pc] as u16;
        let op_byte2 = self.memory[pc + 1] as u16;
        assert(op_byte1 < 0x100 && op_byte2 < 0x100 ==> (op_byte1 << 8 | op_byte2) == op_byte1
            * 0x100 + op_byte2) by (bit_vector);
        op_byte1 << 8 | op_byte2
    }

    /// `8xy4`: adds register `y` to register `x`, then sets the flag register
    /// to the carry.
    pub fn add_registers(&mut self, x: u8, y: u8) -> (result: Result<(), Fault>)
        requires
            old(self).wf(),
        ensures
            final(self).wf(),
            transition(old(self)@, old(self)@.add_registers(x, y), final(self)@, result),
    {
        if x >= 16 || y >= 16 {
            return Err(Fault::RegisterIndexOutOfRange);
        }
        let first_arg: u8 = self.registers[x as usize];
        let second_arg: u8 = self.registers[y as usize];
        let sum: u16 = first_arg as u16 + second_arg as u16;
        self.registers[x as usize] = (sum % 256) as u8;
        self.registers[0xF] = if sum >= 256 {
            1
        } else {
            0
        };
        assert(self@ =~= old(self)@.add_registers(x, y).unwrap());
        Ok(())
    }

    /// `7xkk`: adds `kk` to register `x`, wrapping, without touching the flag
    /// register.
    pub fn add_constant(&mut self, x: u8, kk: u8) -> (result: Result<(), Fault>)
        requires
            old(self).wf(),
        ensures
            final(self).wf(),
            transition(old(self)@, old(self)@.add_constant(x, kk), final(self)@, result),
    {
        if x >= 16 {
            return Err(Fault::RegisterIndexOutOfRange);
        }
        self.registers[x as usize] = self.registers[x as usize].wrapping_add(kk);
        assert(self@ =~= old(self)@.add_constant(x, kk).unwrap());
        Ok(())
    }

    /// `2nnn`: pushes the program counter on the stack and jumps to
    /// `fn_address`.
    pub fn call(&mut self, fn_address: u16) -> (result: Result<(), Fault>)
        requires
            old(self).wf(),
        ensures
            final(self).wf(),
            transition(old(self)@, old(self)@.call(fn_address), final(self)@, result),
    {
        if self.stack_pointer >= 16 {
            return Err(Fault::StackOverflow);
        }
        if !Self::is_legal_address(fn_address as usize) {
            return Err(Fault::IllegalJumpTarget);
        }
        self.stack[self.stack_pointer] = self.program_counter as u16;
        self.stack_pointer += 1;
        self.program_counter = fn_address as usize;
        assert(self@ =~= old(self)@.call(fn_address).unwrap());
        Ok(())
    }

    /// `00EE`: pops the latest return address into the program counter.
    pub fn ret(&mut self) -> (result: Result<(), Fault>)
        requires
            old(self).wf(),
        ensures
            final(self).wf(),
            transition(old(self)@, old(self)@.ret(), final(self)@, result),
    {
        if self.stack_pointer == 0 {
            return Err(Fault::StackUnderflow);
        }
        assert(legal_address(self@.stack[self.stack_pointer - 1] as int));
        self.stack_pointer -= 1;
        self.program_counter = self.stack[self.stack_pointer] as usize;
        assert(self@ =~= old(self)@.ret().unwrap());
        Ok(())
    }

    /// Whether the program counter may be sent to `address`.
    pub fn is_legal_address(address: usize) -> (legal: bool)
        ensures
            legal == legal_address(address as int),
    {
        address < 0x1000 - 1
    }

    /// `1nnn`: jumps to `address`.
    pub fn jump_to(&mut self, address: u16) -> (result: Result<(), Fault>)
        requires
            old(self).wf(),
        ensures
            final(self).wf(),
            transition(old(self)@, old(self)@.jump_to(address), final(self)@, result),
    {
        if !Self::is_legal_address(address as usize) {
            return Err(Fault::IllegalJumpTarget);
        }
        self.program_counter = address as usize;
        Ok(())
    }

    /// `Annn`: sets the address register to `address`.
    pub fn set_pointer_register(&mut self, address: u16)
        requires
            old(self).wf(),
        ensures
            final(self).wf(),
            final(self)@ == old(self)@.set_pointer_register(address),
    {
        self.pointer_register = address;
    }

    /// `Bnnn`: jumps to `address` plus the value of register 0.
    pub fn offset_jump_to(&mut self, address: u16) -> (result: Result<(), Fault>)
        requires
            old(self).wf(),
        ensures
            final(self).wf(),
            transition(old(self)@, old(self)@.offset_jump_to(address), final(self)@, result),
    {
        let destination: usize = address as usize + self.registers[0] as usize;
        if !Self::is_legal_address(destination) {
            return Err(Fault::IllegalJumpTarget);
        }
        self.program_counter = destination;
        Ok(())
    }

    /// `6xkk`: loads `register_value` into a register.
    pub fn load_in_register(&mut self, register_index: u8, register_value: u8) -> (result: Result<
        (),
        Fault,
    >)
        requires
            old(self).wf(),
        ensures
            final(self).wf(),
            transition(
                old(self)@,
                old(self)@.load_in_register(register_index, register_value),
                final(self)@,
                result,
            ),
    {
        let index = register_index as usize;
        if index >= 16 {
            return Err(Fault::RegisterIndexOutOfRange);
        }
        self.registers[index] = register_value;
        assert(self@ =~= old(self)@.load_in_register(register_index, register_value).unwrap());
        Ok(())
    }

    /// Moves the program counter over one instruction.
    fn skip(&mut self) -> (result: Result<(), Fault>)
        requires
            old(self).wf(),
        ensures
            final(self).wf(),
            transition(old(self)@, old(self)@.advance(), final(self)@, result),
    {
        if !Self::is_legal_address(self.program_counter + 2) {
            return Err(Fault::IllegalJumpTarget);
        }
        self.program_counter += 2;
        Ok(())
    }

    /// `3xkk`: skips the next instruction if a register holds
    /// `comparison_value`.
    pub fn skip_if_equal(&mut self, register_index: u8, comparison_value: u8) -> (result: Result<
        (),
        Fault,
    >)
        requires
            old(self).wf(),
        ensures
            final(self).wf(),
            transition(
                old(self)@,
                old(self)@.skip_if_equal(register_index, comparison_value),
                final(self)@,
                result,
            ),
    {
        if register_index >= 16 {
            return Err(Fault::RegisterIndexOutOfRange);
        }
        if self.registers[register_index as usize] == comparison_value {
            return self.skip();
        }
        Ok(())
    }

    /// `4xkk`: skips the next instruction if a register does not hold
    /// `comparison_value`.
    pub fn skip_if_different(&mut self, register_index: u8, comparison_value: u8) -> (result:
        Result<(), Fault>)
        requires
            old(self).wf(),
        ensures
            final(self).wf(),
            transition(
                old(self)@,
                old(self)@.skip_if_different(register_index, comparison_value),
                final(self)@,
                result,
            ),
    {
        if register_index >= 16 {
            return Err(Fault::RegisterIndexOutOfRange);
        }
        if self.registers[register_index as usize] != comparison_value {
            return self.skip();
        }
        Ok(())
    }

    /// `5xy0`: skips the next instruction if two registers are equal.
    pub fn skip_if_equal_registers(&mut self, first_index: u8, second_index: u8) -> (result:
        Result<(), Fault>)
        requires
            old(self).wf(),
        ensures
            final(self).wf(),
            transition(
                old(self)@,
                old(self)@.skip_if_equal_registers(first_index, second_index),
                final(self)@,
                result,
            ),
    {
        if first_index >= 16 || second_index >= 16 {
            return Err(Fault::RegisterIndexOutOfRange);
        }
        if self.registers[first_index as usize] == self.registers[second_index as usize] {
            return self.skip();
        }
        Ok(())
    }

    /// `9xy0`: skips the next instruction if two registers differ.
    pub fn skip_if_different_registers(&mut self, first_index: u8, second_index: u8) -> (result:
        Result<(), Fault>)
        requires
            old(self).wf(),
        ensures
            final(self).wf(),
            transition(
                old(self)@,
                old(self)@.skip_if_different_registers(first_index, second_index),
                final(self)@,
                result,
            ),
    {
        if first_index >= 16 || second_index >= 16 {
            return Err(Fault::RegisterIndexOutOfRange);
        }
        if self.registers[first_index as usize] != self.registers[second_index as usize] {
            return self.skip();
        }
        Ok(())
    }

    /// `8xy0`: copies the second register into the first.
    pub fn copy_second_to_first(&mut self, first_index: u8, second_index: u8) -> (result: Result<
        (),
        Fault,
    >)
        requires
            old(self).wf(),
        ensures
            final(self).wf(),
            transition(
                old(self)@,
                old(self)@.copy_second_to_first(first_index, second_index),
                final(self)@,
                result,
            ),
    {
        if first_index >= 16 || second_index >= 16 {
            return Err(Fault::RegisterIndexOutOfRange);
        }
        self.registers[first_index as usize] = self.registers[second_index as usize];
        assert(self@ =~= old(self)@.copy_second_to_first(first_index, second_index).unwrap());
        Ok(())
    }

    /// `8xy1`: bitwise OR of two registers, into the first.
    pub fn or(&mut self, first_index: u8, second_index: u8) -> (result: Result<(), Fault>)
        requires
            old(self).wf(),
        ensures
            final(self).wf(),
            transition(
                old(self)@,
                old(self)@.or(first_index, second_index),
                final(self)@,
                result,
            ),
    {
        if first_index >= 16 || second_index >= 16 {
            return Err(Fault::RegisterIndexOutOfRange);
        }
        let (first, second) = (first_index as usize, second_index as usize);
        self.registers[first] = self.registers[first] | self.registers[second];
        assert(self@ =~= old(self)@.or(first_index, second_index).unwrap());
        Ok(())
    }

    /// `8xy2`: bitwise AND of two registers, into the first.
    pub fn and(&mut self, first_index: u8, second_index: u8) -> (result: Result<(), Fault>)
        requires
            old(self).wf(),
        ensures
            final(self).wf(),
            transition(
                old(self)@,
                old(self)@.and(first_index, second_index),
                final(self)@,
                result,
            ),
    {
        if first_index >= 16 || second_index >= 16 {
            return Err(Fault::RegisterIndexOutOfRange);
        }
        let (first, second) = (first_index as usize, second_index as usize);
        self.registers[first] = self.registers[first] & self.registers[second];
        assert(self@ =~= old(self)@.and(first_index, second_index).unwrap());
        Ok(())
    }

    /// `8xy3`: bitwise XOR of two registers, into the first.
    pub fn xor(&mut self, first_index: u8, second_index: u8) -> (result: Result<(), Fault>)
        requires
            old(self).wf(),
        ensures
            final(self).wf(),
            transition(
                old(self)@,
                old(self)@.xor(first_index, second_index),
                final(self)@,
                result,
            ),
    {
        if first_index >= 16 || second_index >= 16 {
            return Err(Fault::RegisterIndexOutOfRange);
        }
        let (first, second) = (first_index as usize, second_index as usize);
        self.registers[first] = self.registers[first] ^ self.registers[second];
        assert(self@ =~= old(self)@.xor(first_index, second_index).unwrap());
        Ok(())
    }

    /// `8xy5`: subtracts the second register from the first, then sets the
    /// flag register to the borrow.
    pub fn sub_registers(&mut self, first_index: u8, second_index: u8) -> (result: Result<
        (),
        Fault,
    >)
        requires
            old(self).wf(),
        ensures
            final(self).wf(),
            transition(
                old(self)@,
                old(self)@.sub_registers(first_index, second_index),
                final(self)@,
                result,
            ),
    {
        if first_index >= 16 || second_index >= 16 {
            return Err(Fault::RegisterIndexOutOfRange);
        }
        let (first, second) = (first_index as usize, second_index as usize);
        let minuend: u8 = self.registers[first];
        let subtrahend: u8 = self.registers[second];
        self.registers[first] = minuend.wrapping_sub(subtrahend);
        self.registers[0xF] = if minuend < subtrahend {
            1
        } else {
            0
        };
        assert(self@ =~= old(self)@.sub_registers(first_index, second_index).unwrap());
        Ok(())
    }

    /// `8xy6`: sets the flag register to the lowest bit of a register, then
    /// shifts the register right by one.
    pub fn shift_right(&mut self, first_index: u8) -> (result: Result<(), Fault>)
        requires
            old(self).wf(),
        ensures
            final(self).wf(),
            transition(old(self)@, old(self)@.shift_right(first_index), final(self)@, result),
    {
        if first_index >= 16 {
            return Err(Fault::RegisterIndexOutOfRange);
        }
        let first = first_index as usize;
        let first_register: u8 = self.registers[first];
        self.registers[0xF] = first_register & 0b0000_0001;
        let flagged: u8 = self.registers[first];
        self.registers[first] = flagged >> 1;
        assert(first_register & 0b0000_0001 == first_register % 2) by (bit_vector);
        assert(flagged >> 1 == flagged / 2) by (bit_vector);
        assert(self@ =~= old(self)@.shift_right(first_index).unwrap());
        Ok(())
    }

    /// `8xyE`: sets the flag register to the highest bit of a register, then
    /// shifts the register left by one.
    pub fn shift_left(&mut self, first_index: u8) -> (result: Result<(), Fault>)
        requires
            old(self).wf(),
        ensures
            final(self).wf(),
            transition(old(self)@, old(self)@.shift_left(first_index), final(self)@, result),
    {
        if first_index >= 16 {
            return Err(Fault::RegisterIndexOutOfRange);
        }
        let first = first_index as usize;
        let first_register: u8 = self.registers[first];
        self.registers[0xF] = (first_register & 0b1000_0000) >> 7;
        let flagged: u8 = self.registers[first];
        self.registers[first] = flagged << 1;
        assert((first_register & 0b1000_0000) >> 7 == first_register / 128) by (bit_vector);
        assert(flagged << 1 == flagged * 2 % 256) by (bit_vector);
        assert(self@ =~= old(self)@.shift_left(first_index).unwrap());
        Ok(())
    }

    /// `8xy7`: stores the second register minus the first in the first, then
    /// sets the flag register to the borrow.
    pub fn sub_registers_swapped(&mut self, first_index: u8, second_index: u8) -> (result: Result<
        (),
        Fault,
    >)
        requires
            old(self).wf(),
        ensures
            final(self).wf(),
            transition(
                old(self)@,
                old(self)@.sub_registers_swapped(first_index, second_index),
                final(self)@,
                result,
            ),
    {
        if first_index >= 16 || second_index >= 16 {
            return Err(Fault::RegisterIndexOutOfRange);
        }
        let (first, second) = (first_index as usize, second_index as usize);
        let minuend: u8 = self.registers[second];
        let subtrahend: u8 = self.registers[first];
        self.registers[first] = minuend.wrapping_sub(subtrahend);
        self.registers[0xF] = if minuend < subtrahend {
            1
        } else {
            0
        };
        assert(self@ =~= old(self)@.sub_registers_swapped(first_index, second_index).unwrap());
        Ok(())
    }

    /// Stores in a register the bits of `random_num` that `constant` selects.
    pub fn store_masked(&mut self, register_index: u8, constant: u8, random_num: u8) -> (result:
        Result<(), Fault>)
        requires
            old(self).wf(),
        ensures
            final(self).wf(),
            transition(
                old(self)@,
                old(self)@.random_and_constant_in(register_index, constant, random_num),
                final(self)@,
                result,
            ),
    {
        if register_index >= 16 {
            return Err(Fault::RegisterIndexOutOfRange);
        }
        self.registers[register_index as usize] = random_num & constant;
        assert(self@ =~= old(self)@.random_and_constant_in(
            register_index,
            constant,
            random_num,
        ).unwrap());
        Ok(())
    }

    /// `Cxkk`: stores in a register a random byte masked with `constant`.
    pub fn random_and_constant_in(&mut self, register_index: u8, constant: u8) -> (result: Result<
        (),
        Fault,
    >)
        requires
            old(self).wf(),
        ensures
            final(self).wf(),
            exists|random_num: u8|
                transition(
                    old(self)@,
                    #[trigger] old(self)@.random_and_constant_in(
                        register_index,
                        constant,
                        random_num,
                    ),
                    final(self)@,
                    result,
                ),
    {
        let random_num: u8 = random_byte();
        let result = self.store_masked(register_index, constant, random_num);
        assert(transition(
            old(self)@,
            old(self)@.random_and_constant_in(register_index, constant, random_num),
            self@,
            result,
        ));
        result
    }

    /// `Fx55`: stores registers 0 to `register_index` in memory, from the
    /// address register on.
    pub fn store_registers_up_to(&mut self, register_index: u8) -> (result: Result<(), Fault>)
        requires
            old(self).wf(),
        ensures
            final(self).wf(),
            transition(
                old(self)@,
                old(self)@.store_registers_up_to(register_index),
                final(self)@,
                result,
            ),
    {
        if register_index >= 16 {
            return Err(Fault::RegisterIndexOutOfRange);
        }
        let index = register_index as usize;
        let start_address = self.pointer_register as usize;
        let end_address = start_address + index;
        if end_address >= 0x1000 {
            return Err(Fault::MemoryOutOfBounds);
        }
        let mut offset: usize = 0;
        while offset <= index
            invariant
                index < 16,
                start_address + index < 0x1000,
                offset <= index + 1,
                self.registers == old(self).registers,
                self.program_counter == old(self).program_counter,
                self.stack == old(self).stack,
                self.stack_pointer == old(self).stack_pointer,
                self.pointer_register == old(self).pointer_register,
                self.display == old(self).display,
                self.input == old(self).input,
                forall|address: int|
                    0 <= address < 0x1000 ==> self.memory@[address] == if start_address <= address
                        < start_address + offset {
                        self.registers@[address - start_address]
                    } else {
                        old(self).memory@[address]
                    },
            decreases index + 1 - offset,
        {
            self.memory[start_address + offset] = self.registers[offset];
            offset += 1;
        }
        assert(self@ =~= old(self)@.store_registers_up_to(register_index).unwrap());
        Ok(())
    }

    /// `Fx65`: loads registers 0 to `register_index` from memory, from the
    /// address register on.
    pub fn load_registers_up_to(&mut self, register_index: u8) -> (result: Result<(), Fault>)
        requires
            old(self).wf(),
        ensures
            final(self).wf(),
            transition(
                old(self)@,
                old(self)@.load_registers_up_to(register_index),
                final(self)@,
                result,
            ),
    {
        if register_index >= 16 {
            return Err(Fault::RegisterIndexOutOfRange);
        }
        let index = register_index as usize;
        let start_address = self.pointer_register as usize;
        let end_address = start_address + index;
        if end_address >= 0x1000 {
            return Err(Fault::MemoryOutOfBounds);
        }
        let mut offset: usize = 0;
        while offset <= index
            invariant
                index < 16,
                start_address + index < 0x1000,
                offset <= index + 1,
                self.memory == old(self).memory,
                self.program_counter == old(self).program_counter,
                self.stack == old(self).stack,
                self.stack_pointer == old(self).stack_pointer,
                self.pointer_register == old(self).pointer_register,
                self.display == old(self).display,
                self.input == old(self).input,
                forall|k: int|
                    0 <= k < 16 ==> self.registers@[k] == if k < offset {
                        self.memory@[start_address + k]
                    } else {
                        old(self).registers@[k]
                    },
            decreases index + 1 - offset,
        {
            self.registers[offset] = self.memory[start_address + offset];
            offset += 1;
        }
        assert(self@ =~= old(self)@.load_registers_up_to(register_index).unwrap());
        Ok(())
    }

    /// `Fx1E`: adds a register to the address register, wrapping.
    pub fn add_to_pointer_register(&mut self, register_index: u8) -> (result: Result<(), Fault>)
        requires
            old(self).wf(),
        ensures
            final(self).wf(),
            transition(
                old(self)@,
                old(self)@.add_to_pointer_register(register_index),
                final(self)@,
                result,
            ),
    {
        if register_index >= 16 {
            return Err(Fault::RegisterIndexOutOfRange);
        }
        self.pointer_register = self.pointer_register.wrapping_add(
            self.registers[register_index as usize] as u16,
        );
        Ok(())
    }

    /// `Fx33`: stores the hundreds, tens and ones of a register in the three
    /// bytes at the address register.
    pub fn store_as_bcd(&mut self, register_index: u8) -> (result: Result<(), Fault>)
        requires
            old(self).wf(),
        ensures
            final(self).wf(),
            transition(
                old(self)@,
                old(self)@.store_as_bcd(register_index),
                final(self)@,
                result,
            ),
    {
        if register_index >= 16 {
            return Err(Fault::RegisterIndexOutOfRange);
        }
        let i = self.pointer_register as usize;
        if i + 2 >= 0x1000 {
            return Err(Fault::MemoryOutOfBounds);
        }
        let value: u8 = self.registers[register_index as usize];
        self.memory[i] = value / 100u8;
        self.memory[i + 1] = (value % 100u8) / 10u8;
        self.memory[i + 2] = value % 10u8;
        assert(self@ =~= old(self)@.store_as_bcd(register_index).unwrap());
        Ok(())
    }

    /// `Fx29`: points the address register at the glyph of the hexadecimal
    /// digit that a register holds.
    pub fn point_to_font_char(&mut self, register_index: u8) -> (result: Result<(), Fault>)
        requires
            old(self).wf(),
        ensures
            final(self).wf(),
            transition(
                old(self)@,
                old(self)@.point_to_font_char(register_index),
                final(self)@,
                result,
            ),
    {
        if register_index >= 16 {
            return Err(Fault::RegisterIndexOutOfRange);
        }
        let char: u8 = self.registers[register_index as usize];
        if char / 16u8 > 0 {
            return Err(Fault::UnrepresentableCharacter);
        }
        self.pointer_register = 2 + 5 * char as u16;
        Ok(())
    }

    /// `Dxyd`: draws the sprite of `byte_number` rows at the address register,
    /// at the position that two registers hold, and sets the flag register to
    /// 1 if a lit cell was switched off, to 0 otherwise.
    pub fn draw_at(&mut self, first_index: u8, second_index: u8, byte_number: u8) -> (result:
        Result<(), Fault>)
        requires
            old(self).wf(),
        ensures
            final(self).wf(),
            transition(
                old(self)@,
                old(self)@.draw_at(first_index, second_index, byte_number),
                final(self)@,
                result,
            ),
    {
        if first_index >= 16 || second_index >= 16 {
            return Err(Fault::RegisterIndexOutOfRange);
        }
        let ptr_register = self.pointer_register as usize;
        if ptr_register + byte_number as usize > 0x1000 {
            return Err(Fault::MemoryOutOfBounds);
        }
        let x_coord: u8 = self.registers[first_index as usize] % 64u8;
        let y_coord: u8 = self.registers[second_index as usize] % 32u8;
        let sprite = slice_subrange(
            self.memory.as_slice(),
            ptr_register,
            ptr_register + byte_number as usize,
        );
        let collision = self.display.draw_sprite(sprite, x_coord, y_coord);
        self.registers[0xF] = if collision {
            1
        } else {
            0
        };
        proof {
            self.display.lemma_size();
            assert(self@ =~= old(self)@.draw_at(first_index, second_index, byte_number).unwrap());
        }
        Ok(())
    }

    /// `00E0`: switches every cell of the display off.
    pub fn clear_display(&mut self)
        requires
            old(self).wf(),
        ensures
            final(self).wf(),
            final(self)@ == old(self)@.clear_display(),
    {
        self.display.clear();
        assert(self@ =~= old(self)@.clear_display());
    }

    /// `Fx0A`: suspends the machine until a key goes down, whose value will
    /// go to the register.
    pub fn wait_and_store_key_in(&mut self, register_index: u8) -> (result: Result<(), Fault>)
        requires
            old(self).wf(),
        ensures
            final(self).wf(),
            transition(
                old(self)@,
                old(self)@.wait_and_store_key_in(register_index),
                final(self)@,
                result,
            ),
    {
        if register_index >= 16 {
            return Err(Fault::RegisterIndexOutOfRange);
        }
        self.input = InputState::WaitingForKey { register: register_index };
        Ok(())
    }

    /// Delivers a key-down event. A machine that waits for a key stores the
    /// value of one of the sixteen keys and runs again; any other event is
    /// ignored.
    pub fn key_down(&mut self, key: u8)
        requires
            old(self).wf(),
        ensures
            final(self).wf(),
            final(self)@ == old(self)@.key_down(key),
    {
        match self.input {
            InputState::WaitingForKey { register } => {
                if key < 16 {
                    self.registers[register as usize] = key;
                    self.input = InputState::Running;
                }
            },
            InputState::Running => {},
        }
        assert(self@ =~= old(self)@.key_down(key));
    }

    /// Delivers the event that a key of the keyboard went down. The event
    /// counts as a key-down of the keypad key that the keyboard key stands
    /// for, and is ignored if it stands for none.
    pub fn key_pressed(&mut self, current_keycode: KeyCode)
        requires
            old(self).wf(),
        ensures
            final(self).wf(),
            final(self)@ == match key_value(current_keycode) {
                Some(key) => old(self)@.key_down(key),
                None => old(self)@,
            },
    {
        match logical_key(current_keycode) {
            None => (),
            Some(value) => self.key_down(value),
        }
    }

    /// Hands out the image of the display if it has changed since it was last
    /// handed out: four RGBA bytes per cell, row by row.
    pub fn present(&mut self) -> (image: Option<Vec<u8>>)
        requires
            old(self).wf(),
        ensures
            final(self).wf(),
            final(self)@ == (Machine {
                display: Frame { pixels: old(self)@.display.pixels, dirty: false },
                ..old(self)@
            }),
            match image {
                Some(bytes) => old(self)@.display.dirty && bytes@ == rgba(
                    old(self)@.display.pixels,
                ),
                None => !old(self)@.display.dirty,
            },
    {
        if self.display.is_dirty() {
            let bytes = self.display.rgba_bytes();
            self.display.mark_presented();
            assert(self@ =~= (Machine {
                display: Frame { pixels: old(self)@.display.pixels, dirty: false },
                ..old(self)@
            }));
            Some(bytes)
        } else {
            assert(self@ =~= (Machine {
                display: Frame { pixels: old(self)@.display.pixels, dirty: false },
                ..old(self)@
            }));
            None
        }
    }

    /// Applies one instruction to a machine whose program counter is already
    /// on the next instruction. `random` is the byte that the random
    /// instruction uses.
    pub fn execute(&mut self, instruction: Instruction, random: u8) -> (result: Result<(), Fault>)
        requires
            old(self).wf(),
        ensures
            final(self).wf(),
            transition(
                old(self)@,
                old(self)@.execute(instruction, random),
                final(self)@,
                result,
            ),
    {
        match instruction {
            Instruction::Halt => Ok(()),
            Instruction::ClearDisplay => {
                self.clear_display();
                Ok(())
            },
            Instruction::Return => self.ret(),
            Instruction::Jump { address } => self.jump_to(address),
            Instruction::Call { address } => self.call(address),
            Instruction::SkipIfEqual { x, kk } => self.skip_if_equal(x, kk),
            Instruction::SkipIfDifferent { x, kk } => self.skip_if_different(x, kk),
            Instruction::SkipIfEqualRegisters { x, y } => self.skip_if_equal_registers(x, y),
            Instruction::Load { x, kk } => self.load_in_register(x, kk),
            Instruction::AddConstant { x, kk } => self.add_constant(x, kk),
            Instruction::Copy { x, y } => self.copy_second_to_first(x, y),
            Instruction::Or { x, y } => self.or(x, y),
            Instruction::And { x, y } => self.and(x, y),
            Instruction::Xor { x, y } => self.xor(x, y),
            Instruction::AddRegisters { x, y } => self.add_registers(x, y),
            Instruction::SubRegisters { x, y } => self.sub_registers(x, y),
            Instruction::ShiftRight { x } => self.shift_right(x),
            Instruction::SubRegistersSwapped { x, y } => self.sub_registers_swapped(x, y),
            Instruction::ShiftLeft { x } => self.shift_left(x),
            Instruction::SkipIfDifferentRegisters { x, y } => self.skip_if_different_registers(
                x,
                y,
            ),
            Instruction::SetPointer { address } => {
                self.set_pointer_register(address);
                Ok(())
            },
            Instruction::OffsetJump { address } => self.offset_jump_to(address),
            Instruction::Random { x, kk } => self.store_masked(x, kk, random),
            Instruction::Draw { x, y, rows } => self.draw_at(x, y, rows),
            Instruction::WaitForKey { x } => self.wait_and_store_key_in(x),
            Instruction::AddToPointer { x } => self.add_to_pointer_register(x),
            Instruction::PointToFontChar { x } => self.point_to_font_char(x),
            Instruction::StoreBcd { x } => self.store_as_bcd(x),
            Instruction::StoreRegisters { x } => self.store_registers_up_to(x),
            Instruction::LoadRegisters { x } => self.load_registers_up_to(x),
        }
    }

    /// One cycle with `random` as the byte that a random instruction uses: a
    /// suspended machine does nothing; a running machine fetches, decodes,
    /// moves the program counter on and executes.
    pub fn emulate_cycle_with(&mut self, random: u8) -> (result: Result<Progress, Failure>)
        requires
            old(self).wf(),
        ensures
            final(self).wf(),
            old(self)@.cycle(random) == (final(self)@, result),
    {
        proof {
            reveal(Machine::cycle);
        }
        if let InputState::WaitingForKey { register } = self.input {
            return Ok(Progress::WaitingForKey);
        }
        let op_code = self.read_opcode();
        let program_counter = self.program_counter;
        if let Err(fault) = self.skip() {
            return Err(Failure { fault, program_counter, opcode: op_code });
        }
        match decode(op_code) {
            None => Err(
                Failure { fault: Fault::UnimplementedOpcode, program_counter, opcode: op_code },
            ),
            Some(instruction) => match self.execute(instruction, random) {
                Err(fault) => Err(Failure { fault, program_counter, opcode: op_code }),
                Ok(()) => Ok(
                    match instruction {
                        Instruction::Halt => Progress::Halted,
                        Instruction::WaitForKey { x } => Progress::WaitingForKey,
                        _ => Progress::Running,
                    },
                ),
            },
        }
    }

    /// Whether the next cycle will execute the random instruction.
    fn wants_random(&self) -> (wanted: bool)
        requires
            self.wf(),
        ensures
            wanted <==> self@.input is Running && nibbles(self@.read_opcode()).0 == 0xC,
    {
        match self.input {
            InputState::WaitingForKey { register } => false,
            InputState::Running => {
                let high: u8 = self.memory[self.program_counter];
                let ghost low: u8 = self.memory@[self.program_counter + 1];
                assert((high >> 4 == 0xC) <==> ((high as u16 * 0x100 + low as u16) as u16 / 0x1000
                    == 0xC)) by (bit_vector);
                high >> 4 == 0xC
            },
        }
    }

    /// One cycle: a suspended machine does nothing; a running machine
    /// fetches, decodes, moves the program counter on and executes. The
    /// random instruction uses a freshly drawn byte.
    pub fn emulate_cycle(&mut self) -> (result: Result<Progress, Failure>)
        requires
            old(self).wf(),
        ensures
            final(self).wf(),
            exists|random: u8| #[trigger] old(self)@.cycle(random) == (final(self)@, result),
    {
        let random: u8 = if self.wants_random() {
            random_byte()
        } else {
            0
        };
        let result = self.emulate_cycle_with(random);
        assert(old(self)@.cycle(random) == (self@, result));
        result
    }

    /// Runs cycles until one fails or leaves the machine halted or suspended,
    /// but no more than `max_cycles` of them. The outcome is `Running` where
    /// the cycles ran out first.
    pub fn run_for(&mut self, max_cycles: u64) -> (result: Result<Progress, Failure>)
        requires
            old(self).wf(),
        ensures
            final(self).wf(),
            exists|randoms: Seq<u8>|
                randoms.len() == max_cycles && #[trigger] old(self)@.run(randoms) == (
                    final(self)@,
                    result,
                ),
    {
        let ghost start = self@;
        let ghost mut randoms: Seq<u8> = Seq::empty();
        let mut cycles: u64 = 0;
        while cycles < max_cycles
            invariant
                self.wf(),
                start == old(self)@,
                cycles <= max_cycles,
                randoms.len() == cycles,
                start.run(randoms) == (self@, Ok::<Progress, Failure>(Progress::Running)),
            decreases max_cycles - cycles,
        {
            let ghost before = self@;
            let outcome = self.emulate_cycle();
            proof {
                let random = choose|random: u8| #[trigger]
                    before.cycle(random) == (self@, outcome);
                start.lemma_run_push(randoms, random);
                randoms = randoms.push(random);
            }
            match outcome {
                Ok(Progress::Running) => {},
                _ => {
                    proof {
                        let padding = Seq::new((max_cycles - cycles - 1) as nat, |i: int| 0u8);
                        start.lemma_run_stopped(randoms, padding);
                        assert((randoms + padding).len() == max_cycles);
                        assert(start.run(randoms + padding) == (self@, outcome));
                    }
                    return outcome;
                },
            }
            cycles += 1;
        }
        Ok(Progress::Running)
    }

    /// Runs cycles until one fails or leaves the machine halted or suspended.
    pub fn run(&mut self) -> (result: Result<Progress, Failure>)
        requires
            old(self).wf(),
        ensures
            final(self).wf(),
            exists|randoms: Seq<u8>|
                randoms.len() == u64::MAX && #[trigger] old(self)@.run(randoms) == (
                    final(self)@,
                    result,
                ),
    {
        self.run_for(u64::MAX)
    }
}

} // verus!
