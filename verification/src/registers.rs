//! The register values of the target that a session holds.
use vstd::prelude::*;

use rust_debug::registers::Registers;

verus! {

/// The register values that unwinding starts from.
#[verifier::external_type_specification]
#[verifier::external_body]
pub struct ExRegisters(rust_debug::registers::Registers);

/// The register values that are held, by register number.
pub uninterp spec fn register_values(registers: Registers) -> Map<u16, u32>;

/// No register has a value.
pub open spec fn no_values() -> Map<u16, u32> {
    Map::empty()
}

/// The numbers of the program counter, the link register and the stack
/// pointer, in this order.
pub uninterp spec fn designated_registers(registers: Registers) -> Seq<Option<usize>>;

/// Calls `Registers::new` of `rust_debug` and sets the three fields that
/// number the program counter, the link register and the stack pointer.
/// Claimed: no register value is held, and the three numbers are those given.
#[verifier::external_body]
pub(crate) fn new_registers(
    program_counter: usize,
    link_register: usize,
    stack_pointer: usize,
) -> (registers: Registers)
    ensures
        register_values(registers) == no_values(),
        designated_registers(registers) == seq![
            Some(program_counter),
            Some(link_register),
            Some(stack_pointer),
        ],
{
    let mut registers = Registers::new();
    registers.program_counter_register = Some(program_counter);
    registers.link_register = Some(link_register);
    registers.stack_pointer_register = Some(stack_pointer);
    registers
}

/// `Registers::clear` of `rust_debug`. Claimed: no register value is held
/// afterwards, and the numbers of the three registers stay.
pub assume_specification[ rust_debug::registers::Registers::clear ](registers: &mut rust_debug::registers::Registers)
    ensures
        register_values(*final(registers)) == no_values(),
        designated_registers(*final(registers)) == designated_registers(*old(registers)),
;

/// `Registers::add_register_value` of `rust_debug`. Claimed: the register has
/// the value afterwards, the other registers keep theirs, and the numbers of
/// the three registers stay.
pub assume_specification[ rust_debug::registers::Registers::add_register_value ](
    registers: &mut rust_debug::registers::Registers,
    register: u16,
    value: u32,
)
    ensures
        register_values(*final(registers)) == register_values(*old(registers)).insert(
            register,
            value,
        ),
        designated_registers(*final(registers)) == designated_registers(*old(registers)),
;

/// `Clone` of `rust_debug`'s `Registers`. Claimed: the copy holds the same
/// register values and the same three numbers.
pub assume_specification[ <rust_debug::registers::Registers as Clone>::clone ](
    registers: &rust_debug::registers::Registers,
) -> (copy: rust_debug::registers::Registers)
    ensures
        register_values(copy) == register_values(*registers),
        designated_registers(copy) == designated_registers(*registers),
;

} // verus!
