//! The mathematical model of the machine: what its state is, and what each
//! instruction, a whole cycle and a run make of it.

use crate::display::{blit, collides, Frame, DISPLAY_HEIGHT, DISPLAY_SIZE, DISPLAY_WIDTH};
use crate::fault::{Failure, Fault};
use crate::opcode::{decode_spec, Instruction};
use vstd::prelude::*;

verus! {

/// Number of addressable bytes.
pub const MEMORY_SIZE: usize = 0x1000;

/// Number of general registers.
pub const REGISTER_COUNT: usize = 16;

/// Number of slots of the call stack.
pub const STACK_SIZE: usize = 16;

/// The register that instructions use as carry, borrow and collision flag.
pub const FLAG_REGISTER: usize = 0xF;

/// The address at which a program is loaded.
pub const PROGRAM_START: usize = 0x200;

/// The longest program that fits between `PROGRAM_START` and the end of
/// memory.
pub const PROGRAM_CAPACITY: usize = 0xE00;

/// The address of the first font glyph.
pub const FONT_START: u16 = 2;

/// The number of bytes of one font glyph.
pub const GLYPH_SIZE: u16 = 5;

/// Whether the machine is executing instructions or is suspended until a key
/// goes down.
#[derive(Clone, Copy, Debug, PartialEq, Eq, Structural)]
pub enum InputState {
    /// Instructions are fetched and executed.
    Running,
    /// No instruction is fetched until a key goes down; its value then goes
    /// to `register`.
    WaitingForKey { register: u8 },
}

/// What a cycle left the machine doing.
#[derive(Clone, Copy, Debug, PartialEq, Eq, Structural)]
pub enum Progress {
    /// The next cycle will fetch an instruction.
    Running,
    /// The machine is suspended until a key goes down.
    WaitingForKey,
    /// The halt instruction was executed.
    Halted,
}

/// The bytes that every machine starts with at address 0: a jump to the
/// program, then the glyphs of the sixteen hexadecimal digits, five bytes
/// each.
pub open spec fn boot_image() -> Seq<u8> {
    seq![
        0x12u8, 0x00,
        0xF0, 0x90, 0x90, 0x90, 0xF0,
        0x20, 0x60, 0x20, 0x20, 0x70,
        0xF0, 0x10, 0xF0, 0x80, 0xF0,
        0xF0, 0x10, 0xF0, 0x10, 0xF0,
        0x90, 0x90, 0xF0, 0x10, 0x10,
        0xF0, 0x80, 0xF0, 0x10, 0xF0,
        0xF0, 0x80, 0xF0, 0x90, 0xF0,
        0xF0, 0x10, 0x20, 0x40, 0x40,
        0xF0, 0x90, 0xF0, 0x90, 0xF0,
        0xF0, 0x90, 0xF0, 0x10, 0xF0,
        0xF0, 0x90, 0xF0, 0x90, 0x90,
        0xE0, 0x90, 0xE0, 0x90, 0xE0,
        0xF0, 0x80, 0x80, 0x80, 0xF0,
        0xE0, 0x90, 0x90, 0x90, 0xE0,
        0xF0, 0x80, 0xF0, 0x80, 0xF0,
        0xF0, 0x80, 0xF0, 0x80, 0x80,
    ]
}

/// Whether the program counter may be sent to `address`: a two-byte
/// instruction must fit between it and the end of memory.
pub open spec fn legal_address(address: int) -> bool {
    0 <= address < MEMORY_SIZE - 1
}

/// 1 for a raised flag, 0 for a lowered one.
pub open spec fn flag(raised: bool) -> u8 {
    if raised {
        1
    } else {
        0
    }
}

/// The state of a machine.
#[verifier::ext_equal]
pub struct Machine {
    /// The sixteen general registers.
    pub registers: Seq<u8>,
    /// The address register.
    pub pointer_register: u16,
    /// The 4096 bytes of memory.
    pub memory: Seq<u8>,
    /// The address of the next instruction.
    pub program_counter: int,
    /// The return addresses of the calls that have not returned yet, the
    /// latest last.
    pub stack: Seq<u16>,
    /// The display.
    pub display: Frame,
    /// Whether the machine is suspended.
    pub input: InputState,
}

impl Machine {
    /// The invariant of every machine.
    pub open spec fn wf(self) -> bool {
        &&& self.registers.len() == REGISTER_COUNT
        &&& self.memory.len() == MEMORY_SIZE
        &&& legal_address(self.program_counter)
        &&& self.stack.len() <= STACK_SIZE
        &&& forall|i: int| 0 <= i < self.stack.len() ==> legal_address(#[trigger] self.stack[i] as int)
        &&& self.display.pixels.len() == DISPLAY_SIZE
        &&& (self.input matches InputState::WaitingForKey { register } ==> register < 16)
    }

    /// The machine that starts with the given registers and the given program
    /// loaded at `PROGRAM_START`, below the boot image. The program counter is
    /// 0, where the boot image holds a jump to the program.
    pub open spec fn boot(registers: Seq<u8>, program: Seq<u8>) -> Machine {
        Machine {
            registers,
            pointer_register: 0,
            memory: Seq::new(
                MEMORY_SIZE as nat,
                |address: int|
                    if address < boot_image().len() {
                        boot_image()[address]
                    } else if PROGRAM_START <= address < PROGRAM_START + program.len() {
                        program[address - PROGRAM_START]
                    } else {
                        0u8
                    },
            ),
            program_counter: 0,
            stack: Seq::empty(),
            display: Frame { pixels: Seq::new(DISPLAY_SIZE as nat, |index: int| false), dirty: false },
            input: InputState::Running,
        }
    }

    /// The machine that starts with the given registers and memory, at
    /// address 0.
    pub open spec fn from_image(registers: Seq<u8>, memory: Seq<u8>) -> Machine {
        Machine {
            registers,
            pointer_register: 0,
            memory,
            program_counter: 0,
            stack: Seq::empty(),
            display: Frame { pixels: Seq::new(DISPLAY_SIZE as nat, |index: int| false), dirty: false },
            input: InputState::Running,
        }
    }

    /// The machine with register `x` set to `value`.
    pub open spec fn with_register(self, x: int, value: u8) -> Machine {
        Machine { registers: self.registers.update(x, value), ..self }
    }

    /// The machine with the program counter at `address`, if that is legal.
    pub open spec fn with_program_counter(self, address: int) -> Result<Machine, Fault> {
        if legal_address(address) {
            Ok(Machine { program_counter: address, ..self })
        } else {
            Err(Fault::IllegalJumpTarget)
        }
    }

    /// The machine with the program counter on the next instruction.
    pub open spec fn advance(self) -> Result<Machine, Fault> {
        self.with_program_counter(self.program_counter + 2)
    }

    /// The machine with the program counter advanced if `skip` holds.
    pub open spec fn skip_if(self, skip: bool) -> Result<Machine, Fault> {
        if skip {
            self.advance()
        } else {
            Ok(self)
        }
    }

    /// The instruction word at the program counter, high byte first.
    pub open spec fn read_opcode(self) -> u16 {
        (self.memory[self.program_counter] * 0x100 + self.memory[self.program_counter + 1]) as u16
    }

    /// `00E0`: every cell off, and the display marked as changed.
    pub open spec fn clear_display(self) -> Machine {
        Machine {
            display: Frame { pixels: Seq::new(DISPLAY_SIZE as nat, |index: int| false), dirty: true },
            ..self
        }
    }

    /// `00EE`: the latest return address leaves the stack and becomes the
    /// program counter.
    pub open spec fn ret(self) -> Result<Machine, Fault> {
        if self.stack.len() == 0 {
            Err(Fault::StackUnderflow)
        } else {
            Ok(
                Machine {
                    program_counter: self.stack.last() as int,
                    stack: self.stack.drop_last(),
                    ..self
                },
            )
        }
    }

    /// `1nnn`: the program counter goes to `address`.
    pub open spec fn jump_to(self, address: u16) -> Result<Machine, Fault> {
        self.with_program_counter(address as int)
    }

    /// `2nnn`: the program counter is pushed on the stack and goes to
    /// `address`.
    pub open spec fn call(self, address: u16) -> Result<Machine, Fault> {
        if self.stack.len() >= STACK_SIZE {
            Err(Fault::StackOverflow)
        } else if !legal_address(address as int) {
            Err(Fault::IllegalJumpTarget)
        } else {
            Ok(
                Machine {
                    program_counter: address as int,
                    stack: self.stack.push(self.program_counter as u16),
                    ..self
                },
            )
        }
    }

    /// `3xkk`: the next instruction is skipped if register `x` holds `kk`.
    pub open spec fn skip_if_equal(self, x: u8, kk: u8) -> Result<Machine, Fault> {
        if x >= 16 {
            Err(Fault::RegisterIndexOutOfRange)
        } else {
            self.skip_if(self.registers[x as int] == kk)
        }
    }

    /// `4xkk`: the next instruction is skipped if register `x` does not hold
    /// `kk`.
    pub open spec fn skip_if_different(self, x: u8, kk: u8) -> Result<Machine, Fault> {
        if x >= 16 {
            Err(Fault::RegisterIndexOutOfRange)
        } else {
            self.skip_if(self.registers[x as int] != kk)
        }
    }

    /// `5xy0`: the next instruction is skipped if registers `x` and `y` are
    /// equal.
    pub open spec fn skip_if_equal_registers(self, x: u8, y: u8) -> Result<Machine, Fault> {
        if x >= 16 || y >= 16 {
            Err(Fault::RegisterIndexOutOfRange)
        } else {
            self.skip_if(self.registers[x as int] == self.registers[y as int])
        }
    }

    /// `9xy0`: the next instruction is skipped if registers `x` and `y`
    /// differ.
    pub open spec fn skip_if_different_registers(self, x: u8, y: u8) -> Result<Machine, Fault> {
        if x >= 16 || y >= 16 {
            Err(Fault::RegisterIndexOutOfRange)
        } else {
            self.skip_if(self.registers[x as int] != self.registers[y as int])
        }
    }

    /// `6xkk`: register `x` receives `kk`.
    pub open spec fn load_in_register(self, x: u8, kk: u8) -> Result<Machine, Fault> {
        if x >= 16 {
            Err(Fault::RegisterIndexOutOfRange)
        } else {
            Ok(self.with_register(x as int, kk))
        }
    }

    /// `7xkk`: register `x` receives its sum with `kk` modulo 256. The flag
    /// register is not written.
    pub open spec fn add_constant(self, x: u8, kk: u8) -> Result<Machine, Fault> {
        if x >= 16 {
            Err(Fault::RegisterIndexOutOfRange)
        } else {
            Ok(self.with_register(x as int, ((self.registers[x as int] + kk) % 256) as u8))
        }
    }

    /// `8xy0`: register `x` receives the value of register `y`.
    pub open spec fn copy_second_to_first(self, x: u8, y: u8) -> Result<Machine, Fault> {
        if x >= 16 || y >= 16 {
            Err(Fault::RegisterIndexOutOfRange)
        } else {
            Ok(self.with_register(x as int, self.registers[y as int]))
        }
    }

    /// `8xy1`: register `x` receives its bitwise OR with register `y`.
    pub open spec fn or(self, x: u8, y: u8) -> Result<Machine, Fault> {
        if x >= 16 || y >= 16 {
            Err(Fault::RegisterIndexOutOfRange)
        } else {
            Ok(self.with_register(x as int, self.registers[x as int] | self.registers[y as int]))
        }
    }

    /// `8xy2`: register `x` receives its bitwise AND with register `y`.
    pub open spec fn and(self, x: u8, y: u8) -> Result<Machine, Fault> {
        if x >= 16 || y >= 16 {
            Err(Fault::RegisterIndexOutOfRange)
        } else {
            Ok(self.with_register(x as int, self.registers[x as int] & self.registers[y as int]))
        }
    }

    /// `8xy3`: register `x` receives its bitwise XOR with register `y`.
    pub open spec fn xor(self, x: u8, y: u8) -> Result<Machine, Fault> {
        if x >= 16 || y >= 16 {
            Err(Fault::RegisterIndexOutOfRange)
        } else {
            Ok(self.with_register(x as int, self.registers[x as int] ^ self.registers[y as int]))
        }
    }

    /// `8xy4`: register `x` receives its sum with register `y` modulo 256;
    /// then the flag register receives 1 if the sum is 256 or more, else 0.
    pub open spec fn add_registers(self, x: u8, y: u8) -> Result<Machine, Fault> {
        if x >= 16 || y >= 16 {
            Err(Fault::RegisterIndexOutOfRange)
        } else {
            let sum = self.registers[x as int] + self.registers[y as int];
            Ok(
                self.with_register(x as int, (sum % 256) as u8).with_register(
                    FLAG_REGISTER as int,
                    flag(sum >= 256),
                ),
            )
        }
    }

    /// `8xy5`: register `x` receives its difference with register `y` modulo
    /// 256; then the flag register receives 1 if register `y` was the larger,
    /// else 0.
    pub open spec fn sub_registers(self, x: u8, y: u8) -> Result<Machine, Fault> {
        if x >= 16 || y >= 16 {
            Err(Fault::RegisterIndexOutOfRange)
        } else {
            let difference = self.registers[x as int] - self.registers[y as int];
            Ok(
                self.with_register(x as int, (difference % 256) as u8).with_register(
                    FLAG_REGISTER as int,
                    flag(difference < 0),
                ),
            )
        }
    }

    /// `8xy7`: register `x` receives register `y` minus register `x` modulo
    /// 256; then the flag register receives 1 if register `x` was the larger,
    /// else 0.
    pub open spec fn sub_registers_swapped(self, x: u8, y: u8) -> Result<Machine, Fault> {
        if x >= 16 || y >= 16 {
            Err(Fault::RegisterIndexOutOfRange)
        } else {
            let difference = self.registers[y as int] - self.registers[x as int];
            Ok(
                self.with_register(x as int, (difference % 256) as u8).with_register(
                    FLAG_REGISTER as int,
                    flag(difference < 0),
                ),
            )
        }
    }

    /// `8xy6`: the flag register receives the lowest bit of register `x`;
    /// then register `x` is halved.
    pub open spec fn shift_right(self, x: u8) -> Result<Machine, Fault> {
        if x >= 16 {
            Err(Fault::RegisterIndexOutOfRange)
        } else {
            let flagged = self.with_register(FLAG_REGISTER as int, self.registers[x as int] % 2);
            Ok(flagged.with_register(x as int, flagged.registers[x as int] / 2))
        }
    }

    /// `8xyE`: the flag register receives the highest bit of register `x`;
    /// then register `x` is doubled modulo 256.
    pub open spec fn shift_left(self, x: u8) -> Result<Machine, Fault> {
        if x >= 16 {
            Err(Fault::RegisterIndexOutOfRange)
        } else {
            let flagged = self.with_register(FLAG_REGISTER as int, self.registers[x as int] / 128);
            Ok(flagged.with_register(x as int, (flagged.registers[x as int] * 2 % 256) as u8))
        }
    }

    /// `Annn`: the address register receives `address`.
    pub open spec fn set_pointer_register(self, address: u16) -> Machine {
        Machine { pointer_register: address, ..self }
    }

    /// `Bnnn`: the program counter goes to `address` plus the value of
    /// register 0.
    pub open spec fn offset_jump_to(self, address: u16) -> Result<Machine, Fault> {
        self.with_program_counter(address + self.registers[0])
    }

    /// `Cxkk`: register `x` receives the bits of `random` that `kk` selects.
    pub open spec fn random_and_constant_in(self, x: u8, kk: u8, random: u8) -> Result<
        Machine,
        Fault,
    > {
        if x >= 16 {
            Err(Fault::RegisterIndexOutOfRange)
        } else {
            Ok(self.with_register(x as int, random & kk))
        }
    }

    /// The `rows` bytes of memory that the address register points at.
    pub open spec fn sprite(self, rows: u8) -> Seq<u8> {
        self.memory.subrange(self.pointer_register as int, self.pointer_register + rows)
    }

    /// `Dxyd`: the sprite of `rows` rows at the address register is drawn at
    /// column register `x` modulo 64 and row register `y` modulo 32, clipped
    /// at the edges; the flag register receives 1 if a lit cell was switched
    /// off, else 0; the display is marked as changed.
    pub open spec fn draw_at(self, x: u8, y: u8, rows: u8) -> Result<Machine, Fault> {
        if x >= 16 || y >= 16 {
            Err(Fault::RegisterIndexOutOfRange)
        } else if self.pointer_register + rows > MEMORY_SIZE {
            Err(Fault::MemoryOutOfBounds)
        } else {
            let x0 = self.registers[x as int] as int % DISPLAY_WIDTH as int;
            let y0 = self.registers[y as int] as int % DISPLAY_HEIGHT as int;
            Ok(
                Machine {
                    registers: self.registers.update(
                        FLAG_REGISTER as int,
                        flag(collides(self.display.pixels, self.sprite(rows), x0, y0)),
                    ),
                    display: Frame {
                        pixels: blit(self.display.pixels, self.sprite(rows), x0, y0),
                        dirty: true,
                    },
                    ..self
                },
            )
        }
    }

    /// `Fx0A`: the machine is suspended until a key goes down, whose value
    /// will go to register `x`.
    pub open spec fn wait_and_store_key_in(self, x: u8) -> Result<Machine, Fault> {
        if x >= 16 {
            Err(Fault::RegisterIndexOutOfRange)
        } else {
            Ok(Machine { input: InputState::WaitingForKey { register: x }, ..self })
        }
    }

    /// `Fx1E`: the address register receives its sum with register `x`
    /// modulo 65536.
    pub open spec fn add_to_pointer_register(self, x: u8) -> Result<Machine, Fault> {
        if x >= 16 {
            Err(Fault::RegisterIndexOutOfRange)
        } else {
            Ok(
                Machine {
                    pointer_register: ((self.pointer_register + self.registers[x as int])
                        % 0x10000) as u16,
                    ..self
                },
            )
        }
    }

    /// `Fx29`: the address register receives the address of the glyph of the
    /// hexadecimal digit that register `x` holds.
    pub open spec fn point_to_font_char(self, x: u8) -> Result<Machine, Fault> {
        if x >= 16 {
            Err(Fault::RegisterIndexOutOfRange)
        } else if self.registers[x as int] > 15 {
            Err(Fault::UnrepresentableCharacter)
        } else {
            Ok(
                Machine {
                    pointer_register: (FONT_START + GLYPH_SIZE * self.registers[x as int]) as u16,
                    ..self
                },
            )
        }
    }

    /// `Fx33`: the three bytes at the address register receive the hundreds,
    /// the tens and the ones of register `x`.
    pub open spec fn store_as_bcd(self, x: u8) -> Result<Machine, Fault> {
        if x >= 16 {
            Err(Fault::RegisterIndexOutOfRange)
        } else if self.pointer_register + 2 >= MEMORY_SIZE {
            Err(Fault::MemoryOutOfBounds)
        } else {
            let value = self.registers[x as int];
            let start = self.pointer_register as int;
            Ok(
                Machine {
                    memory: self.memory.update(start, value / 100).update(
                        start + 1,
                        value / 10 % 10,
                    ).update(start + 2, value % 10),
                    ..self
                },
            )
        }
    }

    /// `Fx55`: the bytes from the address register on receive registers 0
    /// to `x`.
    pub open spec fn store_registers_up_to(self, x: u8) -> Result<Machine, Fault> {
        if x >= 16 {
            Err(Fault::RegisterIndexOutOfRange)
        } else if self.pointer_register + x >= MEMORY_SIZE {
            Err(Fault::MemoryOutOfBounds)
        } else {
            Ok(
                Machine {
                    memory: Seq::new(
                        MEMORY_SIZE as nat,
                        |address: int|
                            if self.pointer_register <= address <= self.pointer_register + x {
                                self.registers[address - self.pointer_register]
                            } else {
                                self.memory[address]
                            },
                    ),
                    ..self
                },
            )
        }
    }

    /// `Fx65`: registers 0 to `x` receive the bytes from the address register
    /// on.
    pub open spec fn load_registers_up_to(self, x: u8) -> Result<Machine, Fault> {
        if x >= 16 {
            Err(Fault::RegisterIndexOutOfRange)
        } else if self.pointer_register + x >= MEMORY_SIZE {
            Err(Fault::MemoryOutOfBounds)
        } else {
            Ok(
                Machine {
                    registers: Seq::new(
                        REGISTER_COUNT as nat,
                        |index: int|
                            if index <= x {
                                self.memory[self.pointer_register + index]
                            } else {
                                self.registers[index]
                            },
                    ),
                    ..self
                },
            )
        }
    }

    /// A key with the value `key` goes down. A machine that waits for a key
    /// stores the value of one of the sixteen keys in the register that the
    /// wait named, and runs again. Nothing else changes a machine.
    pub open spec fn key_down(self, key: u8) -> Machine {
        match self.input {
            InputState::WaitingForKey { register } if key < 16 => Machine {
                input: InputState::Running,
                ..self.with_register(register as int, key)
            },
            _ => self,
        }
    }

    /// The effect of one instruction on a machine whose program counter is
    /// already on the next instruction. `random` is the byte that the random
    /// instruction uses.
    pub open spec fn execute(self, instruction: Instruction, random: u8) -> Result<Machine, Fault> {
        match instruction {
            Instruction::Halt => Ok(self),
            Instruction::ClearDisplay => Ok(self.clear_display()),
            Instruction::Return => self.ret(),
            Instruction::Jump { address } => self.jump_to(address),
            Instruction::Call { address } => self.call(address),
            Instruction::SkipIfEqual { x, kk } => self.skip_if_equal(x, kk),
            Instruction::SkipIfDifferent { x, kk } => self.skip_if_different(x, kk),
            Instruction::SkipIfEqualRegisters { x, y } => self.skip_if_equal_registers(x, y),
            Instruction::Load { x, kk } => self.load_in_register(x, kk),
            Instruction::AddConstant { x, kk } => self.add_constant(x, kk),
            Instruction::Copy { x, y } => self.copy_second_to_first(x, y),
            Instruction::Or { x, y } => self.or(x, y),
            Instruction::And { x, y } => self.and(x, y),
            Instruction::Xor { x, y } => self.xor(x, y),
            Instruction::AddRegisters { x, y } => self.add_registers(x, y),
            Instruction::SubRegisters { x, y } => self.sub_registers(x, y),
            Instruction::ShiftRight { x } => self.shift_right(x),
            Instruction::SubRegistersSwapped { x, y } => self.sub_registers_swapped(x, y),
            Instruction::ShiftLeft { x } => self.shift_left(x),
            Instruction::SkipIfDifferentRegisters { x, y } => self.skip_if_different_registers(
                x,
                y,
            ),
            Instruction::SetPointer { address } => Ok(self.set_pointer_register(address)),
            Instruction::OffsetJump { address } => self.offset_jump_to(address),
            Instruction::Random { x, kk } => self.random_and_constant_in(x, kk, random),
            Instruction::Draw { x, y, rows } => self.draw_at(x, y, rows),
            Instruction::WaitForKey { x } => self.wait_and_store_key_in(x),
            Instruction::AddToPointer { x } => self.add_to_pointer_register(x),
            Instruction::PointToFontChar { x } => self.point_to_font_char(x),
            Instruction::StoreBcd { x } => self.store_as_bcd(x),
            Instruction::StoreRegisters { x } => self.store_registers_up_to(x),
            Instruction::LoadRegisters { x } => self.load_registers_up_to(x),
        }
    }

    /// What the machine is doing once `instruction` has been executed.
    pub open spec fn progress_after(instruction: Instruction) -> Progress {
        match instruction {
            Instruction::Halt => Progress::Halted,
            Instruction::WaitForKey { x } => Progress::WaitingForKey,
            _ => Progress::Running,
        }
    }

    /// One cycle. A suspended machine does nothing. A running machine fetches
    /// the instruction word at the program counter, moves the program counter
    /// behind it and executes the instruction. A fault leaves the machine as
    /// it was when the fault was found: before the cycle where the program
    /// counter cannot move on, behind the instruction word where the word
    /// stands for no instruction or the instruction fails.
    #[verifier::opaque]
    pub open spec fn cycle(self, random: u8) -> (Machine, Result<Progress, Failure>) {
        if self.input is WaitingForKey {
            (self, Ok(Progress::WaitingForKey))
        } else {
            let opcode = self.read_opcode();
            let program_counter = self.program_counter as usize;
            match self.advance() {
                Err(fault) => (self, Err(Failure { fault, program_counter, opcode })),
                Ok(fetched) => match decode_spec(opcode) {
                    None => (
                        fetched,
                        Err(Failure { fault: Fault::UnimplementedOpcode, program_counter, opcode }),
                    ),
                    Some(instruction) => match fetched.execute(instruction, random) {
                        Err(fault) => (fetched, Err(Failure { fault, program_counter, opcode })),
                        Ok(executed) => (executed, Ok(Self::progress_after(instruction))),
                    },
                },
            }
        }
    }

    /// A run of at most as many cycles as `randoms` has bytes, the cycles
    /// using these bytes in turn. The run ends with the first cycle that
    /// fails or leaves the machine halted or suspended. The outcome is
    /// `Running` where no cycle did.
    pub open spec fn run(self, randoms: Seq<u8>) -> (Machine, Result<Progress, Failure>)
        decreases randoms.len(),
    {
        if randoms.len() == 0 {
            (self, Ok(Progress::Running))
        } else {
            let (next, outcome) = self.cycle(randoms.first());
            if outcome == Ok::<Progress, Failure>(Progress::Running) {
                next.run(randoms.drop_first())
            } else {
                (next, outcome)
            }
        }
    }

    /// A run over two sequences of random bytes, one after the other, is the
    /// run over the second from where the run over the first ended, unless
    /// that run has stopped.
    pub proof fn lemma_run_append(self, first: Seq<u8>, rest: Seq<u8>)
        ensures
            self.run(first + rest) == if self.run(first).1 == Ok::<Progress, Failure>(
                Progress::Running,
            ) {
                self.run(first).0.run(rest)
            } else {
                self.run(first)
            },
        decreases first.len(),
    {
        if first.len() == 0 {
            assert(first + rest =~= rest);
        } else {
            assert((first + rest).first() == first.first());
            assert((first + rest).drop_first() =~= first.drop_first() + rest);
            let (next, outcome) = self.cycle(first.first());
            if outcome == Ok::<Progress, Failure>(Progress::Running) {
                next.lemma_run_append(first.drop_first(), rest);
            }
        }
    }

    /// A run that is still going after the bytes `randoms` goes on with a
    /// cycle for the next byte.
    pub proof fn lemma_run_push(self, randoms: Seq<u8>, random: u8)
        requires
            self.run(randoms).1 == Ok::<Progress, Failure>(Progress::Running),
        ensures
            self.run(randoms.push(random)) == self.run(randoms).0.cycle(random),
    {
        let single = seq![random];
        assert(randoms.push(random) =~= randoms + single);
        assert(single.first() == random);
        assert(single.drop_first() =~= Seq::<u8>::empty());
        self.lemma_run_append(randoms, single);
        let reached = self.run(randoms).0;
        let (next, outcome) = reached.cycle(random);
        assert(next.run(Seq::<u8>::empty()) == (next, Ok::<Progress, Failure>(Progress::Running)));
        assert(reached.run(single) == if outcome == Ok::<Progress, Failure>(Progress::Running) {
            next.run(single.drop_first())
        } else {
            (next, outcome)
        });
    }

    /// A run that has stopped is not changed by further random bytes.
    pub proof fn lemma_run_stopped(self, randoms: Seq<u8>, rest: Seq<u8>)
        requires
            self.run(randoms).1 != Ok::<Progress, Failure>(Progress::Running),
        ensures
            self.run(randoms + rest) == self.run(randoms),
    {
        self.lemma_run_append(randoms, rest);
    }
}

} // verus!
