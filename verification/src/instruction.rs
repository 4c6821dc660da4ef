//! The fixed opcode vocabulary shared by the interpreter and the JIT.
//! Registers are named by small integer indices; jump targets are signed
//! offsets relative to the current instruction pointer.

use vstd::prelude::*;

use crate::value::{RuntimeValue, ValueModel};

verus! {

/// One bytecode instruction, immutable once constructed.
#[derive(Debug)]
pub enum Instruction {
    /// Stores a constant into a register.
    Load(RuntimeValue, u8),
    /// Copies one register into another.
    Move(u8, u8),
    /// Materializes the cached comparison flag into a register.
    CompToReg(u8),
    /// Moves the cached arithmetic result into a register, leaving the
    /// cache empty.
    OpToReg(u8),
    /// Releases a register's value and leaves the `None` tombstone.
    Drop(u8),
    /// Upflowing arithmetic over two registers; the result is cached, not
    /// stored, until an `OpToReg` commits it.
    Add(u8, u8),
    Sub(u8, u8),
    Mult(u8, u8),
    Div(u8, u8),
    /// Bitwise operations over registers; the result is cached like the
    /// arithmetic family's.
    And(u8, u8),
    Or(u8, u8),
    Xor(u8, u8),
    Not(u8),
    /// Comparisons over two registers; the outcome lands in the cached
    /// comparison flag.
    Eq(u8, u8),
    NotEq(u8, u8),
    GreaterThan(u8, u8),
    LessThan(u8, u8),
    /// Renders a register into the output sink.
    Print(u8),
    /// Unconditional relative jump.
    Jump(i32),
    /// Relative jump taken when the cached comparison flag is set.
    JumpComp(i32),
    /// A jump target marker; a no-op when executed.
    JumpPoint(u32),
    /// Calls the function with the given index.
    Func(u32),
    /// Returns to the calling frame, or finishes when none is left.
    Return,
    /// Hands control back to the invoker, resumable at the next index.
    Yield,
    /// Triggers a collection sweep.
    Collect,
    /// Stops execution.
    Halt,
    /// Does nothing.
    NoOp,
    /// Always fails with an invalid-instruction error.
    Illegal,
}

/// The mathematical shape of an instruction.
pub enum InstructionModel {
    Load(ValueModel, u8),
    Move(u8, u8),
    CompToReg(u8),
    OpToReg(u8),
    Drop(u8),
    Add(u8, u8),
    Sub(u8, u8),
    Mult(u8, u8),
    Div(u8, u8),
    And(u8, u8),
    Or(u8, u8),
    Xor(u8, u8),
    Not(u8),
    Eq(u8, u8),
    NotEq(u8, u8),
    GreaterThan(u8, u8),
    LessThan(u8, u8),
    Print(u8),
    Jump(i32),
    JumpComp(i32),
    JumpPoint(u32),
    Func(u32),
    Return,
    Yield,
    Collect,
    Halt,
    NoOp,
    Illegal,
}

impl View for Instruction {
    type V = InstructionModel;

    open spec fn view(&self) -> InstructionModel {
        match self {
            Instruction::Load(v, r) => InstructionModel::Load(v@, *r),
            Instruction::Move(s, d) => InstructionModel::Move(*s, *d),
            Instruction::CompToReg(r) => InstructionModel::CompToReg(*r),
            Instruction::OpToReg(r) => InstructionModel::OpToReg(*r),
            Instruction::Drop(r) => InstructionModel::Drop(*r),
            Instruction::Add(l, r) => InstructionModel::Add(*l, *r),
            Instruction::Sub(l, r) => InstructionModel::Sub(*l, *r),
            Instruction::Mult(l, r) => InstructionModel::Mult(*l, *r),
            Instruction::Div(l, r) => InstructionModel::Div(*l, *r),
            Instruction::And(l, r) => InstructionModel::And(*l, *r),
            Instruction::Or(l, r) => InstructionModel::Or(*l, *r),
            Instruction::Xor(l, r) => InstructionModel::Xor(*l, *r),
            Instruction::Not(r) => InstructionModel::Not(*r),
            Instruction::Eq(l, r) => InstructionModel::Eq(*l, *r),
            Instruction::NotEq(l, r) => InstructionModel::NotEq(*l, *r),
            Instruction::GreaterThan(l, r) => InstructionModel::GreaterThan(*l, *r),
            Instruction::LessThan(l, r) => InstructionModel::LessThan(*l, *r),
            Instruction::Print(r) => InstructionModel::Print(*r),
            Instruction::Jump(o) => InstructionModel::Jump(*o),
            Instruction::JumpComp(o) => InstructionModel::JumpComp(*o),
            Instruction::JumpPoint(p) => InstructionModel::JumpPoint(*p),
            Instruction::Func(f) => InstructionModel::Func(*f),
            Instruction::Return => InstructionModel::Return,
            Instruction::Yield => InstructionModel::Yield,
            Instruction::Collect => InstructionModel::Collect,
            Instruction::Halt => InstructionModel::Halt,
            Instruction::NoOp => InstructionModel::NoOp,
            Instruction::Illegal => InstructionModel::Illegal,
        }
    }
}

impl Instruction {
    /// A structural copy: the copy's model is the original's.
    pub fn duplicate(&self) -> (r: Instruction)
        ensures
            r@ == self@,
    {
        match self {
            Instruction::Load(v, r) => Instruction::Load(v.duplicate(), *r),
            Instruction::Move(s, d) => Instruction::Move(*s, *d),
            Instruction::CompToReg(r) => Instruction::CompToReg(*r),
            Instruction::OpToReg(r) => Instruction::OpToReg(*r),
            Instruction::Drop(r) => Instruction::Drop(*r),
            Instruction::Add(l, r) => Instruction::Add(*l, *r),
            Instruction::Sub(l, r) => Instruction::Sub(*l, *r),
            Instruction::Mult(l, r) => Instruction::Mult(*l, *r),
            Instruction::Div(l, r) => Instruction::Div(*l, *r),
            Instruction::And(l, r) => Instruction::And(*l, *r),
            Instruction::Or(l, r) => Instruction::Or(*l, *r),
            Instruction::Xor(l, r) => Instruction::Xor(*l, *r),
            Instruction::Not(r) => Instruction::Not(*r),
            Instruction::Eq(l, r) => Instruction::Eq(*l, *r),
            Instruction::NotEq(l, r) => Instruction::NotEq(*l, *r),
            Instruction::GreaterThan(l, r) => Instruction::GreaterThan(*l, *r),
            Instruction::LessThan(l, r) => Instruction::LessThan(*l, *r),
            Instruction::Print(r) => Instruction::Print(*r),
            Instruction::Jump(o) => Instruction::Jump(*o),
            Instruction::JumpComp(o) => Instruction::JumpComp(*o),
            Instruction::JumpPoint(p) => Instruction::JumpPoint(*p),
            Instruction::Func(f) => Instruction::Func(*f),
            Instruction::Return => Instruction::Return,
            Instruction::Yield => Instruction::Yield,
            Instruction::Collect => Instruction::Collect,
            Instruction::Halt => Instruction::Halt,
            Instruction::NoOp => Instruction::NoOp,
            Instruction::Illegal => Instruction::Illegal,
        }
    }
}

} // verus!
