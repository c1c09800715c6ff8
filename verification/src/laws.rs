//! Laws of the instruction set, stated over the model of the machine.

use crate::display::{lemma_draw_twice, sprite_covers, Frame};
use crate::fault::Fault;
use crate::machine::{flag, legal_address, Machine, MEMORY_SIZE, STACK_SIZE};
use crate::opcode::{decode_spec, nibbles, Instruction};
use vstd::prelude::*;

verus! {

/// `8xy4` with `x` other than the flag register leaves in register `x` the
/// sum of registers `x` and `y` modulo 256, and in the flag register 1 if
/// the sum is 256 or more, 0 otherwise.
pub proof fn lemma_add_sets_sum_and_carry(machine: Machine, op_code: u16, random: u8)
    requires
        machine.wf(),
        nibbles(op_code).0 == 0x8,
        nibbles(op_code).3 == 0x4,
        nibbles(op_code).1 != 0xF,
    ensures
        decode_spec(op_code) == Some(
            Instruction::AddRegisters { x: nibbles(op_code).1, y: nibbles(op_code).2 },
        ),
        machine.execute(decode_spec(op_code).unwrap(), random) matches Ok(next) && {
            let x = nibbles(op_code).1 as int;
            let y = nibbles(op_code).2 as int;
            let sum = machine.registers[x] + machine.registers[y];
            &&& next.registers[x] == sum % 256
            &&& next.registers[15] == flag(sum >= 256)
            &&& (next.registers[15] == 1 <==> sum >= 256)
        },
{
}

/// `8xy6` with `x` other than the flag register leaves in the flag register
/// the lowest bit that register `x` had, and in register `x` its former
/// value shifted right by one, with a zero coming in from the left.
pub proof fn lemma_shift_right_sets_bit_and_half(machine: Machine, op_code: u16, random: u8)
    requires
        machine.wf(),
        nibbles(op_code).0 == 0x8,
        nibbles(op_code).3 == 0x6,
        nibbles(op_code).1 != 0xF,
    ensures
        decode_spec(op_code) == Some(Instruction::ShiftRight { x: nibbles(op_code).1 }),
        machine.execute(decode_spec(op_code).unwrap(), random) matches Ok(next) && {
            let x = nibbles(op_code).1 as int;
            &&& next.registers[15] == machine.registers[x] & 1
            &&& next.registers[x] == machine.registers[x] >> 1
            &&& next.registers[x] < 128
        },
{
    let old = machine.registers[nibbles(op_code).1 as int];
    assert(old & 1 == old % 2 && old >> 1 == old / 2 && old >> 1 < 128) by (bit_vector);
}

/// The machine after the calls to `targets`, made one after the other with
/// no instruction in between.
pub open spec fn after_calls(machine: Machine, targets: Seq<u16>) -> Result<Machine, Fault>
    decreases targets.len(),
{
    if targets.len() == 0 {
        Ok(machine)
    } else {
        match after_calls(machine, targets.drop_last()) {
            Ok(called) => called.call(targets.last()),
            Err(fault) => Err(fault),
        }
    }
}

/// The machine after `count` returns, made one after the other with no
/// instruction in between.
pub open spec fn after_returns(machine: Machine, count: nat) -> Result<Machine, Fault>
    decreases count,
{
    if count == 0 {
        Ok(machine)
    } else {
        match machine.ret() {
            Ok(returned) => after_returns(returned, (count - 1) as nat),
            Err(fault) => Err(fault),
        }
    }
}

/// A return undoes a call.
pub proof fn lemma_return_undoes_call(machine: Machine, target: u16)
    requires
        machine.wf(),
        machine.stack.len() < STACK_SIZE,
        legal_address(target as int),
    ensures
        machine.call(target) matches Ok(called) && called.wf() && called.stack.len()
            == machine.stack.len() + 1 && called.ret() == Ok::<Machine, Fault>(machine),
{
    let called = machine.call(target).unwrap();
    assert(called.stack.drop_last() =~= machine.stack);
    assert(called.ret().unwrap() =~= machine);
}

/// Calls that the stack has room for all succeed, and each adds one return
/// address.
pub proof fn lemma_calls_succeed(machine: Machine, targets: Seq<u16>)
    requires
        machine.wf(),
        machine.stack.len() + targets.len() <= STACK_SIZE,
        forall|i: int| 0 <= i < targets.len() ==> legal_address(#[trigger] targets[i] as int),
    ensures
        after_calls(machine, targets) matches Ok(called) && called.wf() && called.stack.len()
            == machine.stack.len() + targets.len(),
    decreases targets.len(),
{
    if targets.len() > 0 {
        lemma_calls_succeed(machine, targets.drop_last());
        lemma_return_undoes_call(after_calls(machine, targets.drop_last()).unwrap(), targets.last());
    }
}

/// Call and return are balanced: after calls that the stack has room for,
/// `k` returns lead back to the machine as it was after all but the last
/// `k` calls; as many returns as there were calls lead back to the machine
/// as it was before the first.
pub proof fn lemma_calls_and_returns_balance(machine: Machine, targets: Seq<u16>, k: nat)
    requires
        machine.wf(),
        machine.stack.len() + targets.len() <= STACK_SIZE,
        forall|i: int| 0 <= i < targets.len() ==> legal_address(#[trigger] targets[i] as int),
        k <= targets.len(),
    ensures
        after_calls(machine, targets) matches Ok(called) && after_returns(called, k)
            == after_calls(machine, targets.take(targets.len() - k)),
        k == targets.len() ==> after_returns(after_calls(machine, targets).unwrap(), k) == Ok::<
            Machine,
            Fault,
        >(machine),
    decreases k,
{
    lemma_calls_succeed(machine, targets);
    if k == 0 {
        assert(targets.take(targets.len() as int) =~= targets);
    } else {
        let earlier = targets.drop_last();
        lemma_calls_succeed(machine, earlier);
        lemma_return_undoes_call(after_calls(machine, earlier).unwrap(), targets.last());
        lemma_calls_and_returns_balance(machine, earlier, (k - 1) as nat);
        assert(earlier.take(earlier.len() - (k - 1)) =~= targets.take(targets.len() - k));
    }
    if k == targets.len() {
        assert(targets.take(0) =~= Seq::<u16>::empty());
    }
}

/// With sixteen calls outstanding, one more raises a stack overflow: from
/// an empty stack, the seventeenth call in a row.
pub proof fn lemma_call_overflows(machine: Machine, targets: Seq<u16>)
    requires
        machine.wf(),
        machine.stack.len() + targets.len() == STACK_SIZE + 1,
        targets.len() > 0,
        forall|i: int| 0 <= i < targets.len() ==> legal_address(#[trigger] targets[i] as int),
    ensures
        after_calls(machine, targets.drop_last()) is Ok,
        after_calls(machine, targets) == Err::<Machine, Fault>(Fault::StackOverflow),
{
    lemma_calls_succeed(machine, targets.drop_last());
}

/// With no call outstanding, a return raises a stack underflow.
pub proof fn lemma_return_underflows(machine: Machine)
    requires
        machine.wf(),
        machine.stack.len() == 0,
    ensures
        machine.ret() == Err::<Machine, Fault>(Fault::StackUnderflow),
{
}

/// A jump succeeds exactly to the addresses below the last byte of memory;
/// a jump to the last byte raises an illegal jump target.
pub proof fn lemma_jump_targets(machine: Machine, address: u16)
    requires
        machine.wf(),
    ensures
        address < MEMORY_SIZE - 1 ==> (machine.jump_to(address) matches Ok(next)
            && next.program_counter == address && next.wf()),
        address >= MEMORY_SIZE - 1 ==> machine.jump_to(address) == Err::<Machine, Fault>(
            Fault::IllegalJumpTarget,
        ),
        machine.jump_to(0xFFF) == Err::<Machine, Fault>(Fault::IllegalJumpTarget),
{
}

/// The three bytes that `Fx33` stores are the decimal digits of register
/// `x`: each is below ten, and they make up the value.
pub proof fn lemma_bcd_digits(machine: Machine, x: u8)
    requires
        machine.wf(),
        x < 16,
        machine.pointer_register + 2 < MEMORY_SIZE,
    ensures
        machine.store_as_bcd(x) matches Ok(next) && {
            let start = machine.pointer_register as int;
            let hundreds = next.memory[start];
            let tens = next.memory[start + 1];
            let ones = next.memory[start + 2];
            &&& hundreds < 10 && tens < 10 && ones < 10
            &&& 100 * hundreds + 10 * tens + ones == machine.registers[x as int]
        },
{
}

/// Drawing the same sprite twice at the same place, with coordinates taken
/// from registers other than the flag register, restores every cell of the
/// display. The second draw sets the flag register to 1 exactly when the
/// sprite has a set bit on a cell that was unlit before the first draw, as
/// it has on a blank display unless it has no set bit on the display at all.
pub proof fn lemma_draw_twice_restores(machine: Machine, x: u8, y: u8, rows: u8)
    requires
        machine.wf(),
        x < 15,
        y < 15,
        machine.pointer_register + rows <= MEMORY_SIZE,
    ensures
        machine.draw_at(x, y, rows) matches Ok(once) && once.draw_at(x, y, rows) matches Ok(twice)
            && {
            let x0 = (machine.registers[x as int] % 64) as int;
            let y0 = (machine.registers[y as int] % 32) as int;
            let touched_unlit = exists|index: int| #[trigger]
                sprite_covers(machine.sprite(rows), x0, y0, index)
                    && !machine.display.pixels[index];
            &&& twice.display == Frame { pixels: machine.display.pixels, dirty: true }
            &&& twice.registers == machine.registers.update(15, flag(touched_unlit))
            &&& (twice.registers[15] == 1 <==> touched_unlit)
        },
{
    let x0 = (machine.registers[x as int] % 64) as int;
    let y0 = (machine.registers[y as int] % 32) as int;
    lemma_draw_twice(machine.display.pixels, machine.sprite(rows), x0, y0);
    let once = machine.draw_at(x, y, rows).unwrap();
    assert(once.sprite(rows) == machine.sprite(rows));
    let twice = once.draw_at(x, y, rows).unwrap();
    assert(twice.registers =~= machine.registers.update(
        15,
        flag(
            exists|index: int| #[trigger]
                sprite_covers(machine.sprite(rows), x0, y0, index)
                    && !machine.display.pixels[index],
        ),
    ));
}

/// No instruction leads out of the well-formed machines: the program counter
/// stays on a fetchable address, the stack within its sixteen slots, and
/// registers, memory and display keep their sizes.
pub proof fn lemma_execute_keeps_wf(machine: Machine, instruction: Instruction, random: u8)
    requires
        machine.wf(),
    ensures
        machine.execute(instruction, random) matches Ok(next) ==> next.wf(),
{
}

/// No cycle leads out of the well-formed machines.
pub proof fn lemma_cycle_keeps_wf(machine: Machine, random: u8)
    requires
        machine.wf(),
    ensures
        machine.cycle(random).0.wf(),
{
    reveal(Machine::cycle);
    match (machine.advance(), decode_spec(machine.read_opcode())) {
        (Ok(fetched), Some(instruction)) => lemma_execute_keeps_wf(fetched, instruction, random),
        _ => {},
    }
}

} // verus!
