//! The instruction set of the machine.

use vstd::prelude::*;

use crate::value::{InstructionAddress, Value};

verus! {

/// A signed offset into the stack: frame-relative addresses may be negative
/// to reach the arguments below a frame.
pub type StackAddress = isize;

/// The opcodes of the machine. Operands are popped right first, then left.
#[derive(Debug, Clone)]
pub enum Instruction {
    /// Pops a value into the global slot at the address.
    StoreGlobal(StackAddress),
    /// Pushes the global slot at the address (`Undefined` if never written).
    LoadGlobal(StackAddress),
    /// Pops a value into the slot at the frame-relative address.
    Store(StackAddress),
    /// Pushes the slot at the frame-relative address.
    Load(StackAddress),
    /// Pushes a constant.
    Push(Value),
    /// Pops a key and a target, pushes `target[key]`.
    Get,
    /// Pops a function pointer or a closure reference and calls it.
    Jump,
    /// Pops the return value, drops the callee's frame, and resumes the
    /// caller with the return value on top.
    Return,
    JumpStatic(InstructionAddress),
    /// Pops a condition and jumps when it is truthy.
    JumpConditional(InstructionAddress),
    /// Pops that many values into a new array and pushes a reference to it.
    MakeArray(usize),
    /// Pops that many key and value pairs, each key below its value, into a
    /// new map and pushes a reference to it; keys are coerced to strings.
    MakeDict(usize),
    /// Pops that many values into the environment of a new closure with the
    /// given entry, and pushes a reference to it.
    MakeClosure(usize, InstructionAddress),
    Add,
    Sub,
    Rem,
    Div,
    Mul,
    And,
    Or,
    Equal,
    NotEqual,
    SmallerEqual,
    GreaterEqual,
    BitwiseShiftLeft,
    BitwiseShiftRight,
    BitwiseAnd,
    BitwiseOr,
    BitwiseXor,
    BitwiseNot,
    Not,
    Negation,
}

impl Instruction {
    /// Whether this instruction pops two operands and pushes one result.
    pub fn is_binary(&self) -> (r: bool)
        ensures
            r == crate::machine::is_binary(*self),
    {
        match self {
            Instruction::Add | Instruction::And | Instruction::Or | Instruction::Get | Instruction::Sub
            | Instruction::Mul | Instruction::Div | Instruction::Rem | Instruction::BitwiseAnd
            | Instruction::BitwiseOr | Instruction::BitwiseXor | Instruction::BitwiseShiftLeft
            | Instruction::BitwiseShiftRight | Instruction::Equal | Instruction::NotEqual
            | Instruction::SmallerEqual | Instruction::GreaterEqual => true,
            _ => false,
        }
    }

    /// Whether this instruction pops one operand and pushes one result.
    pub fn is_unary(&self) -> (r: bool)
        ensures
            r == crate::machine::is_unary(*self),
    {
        match self {
            Instruction::Not | Instruction::Negation | Instruction::BitwiseNot => true,
            _ => false,
        }
    }

    /// A copy of this instruction.
    pub fn duplicate(&self) -> (r: Instruction)
        ensures
            r == *self,
    {
        match self {
            Instruction::StoreGlobal(a) => Instruction::StoreGlobal(*a),
            Instruction::LoadGlobal(a) => Instruction::LoadGlobal(*a),
            Instruction::Store(a) => Instruction::Store(*a),
            Instruction::Load(a) => Instruction::Load(*a),
            Instruction::JumpStatic(a) => Instruction::JumpStatic(*a),
            Instruction::JumpConditional(a) => Instruction::JumpConditional(*a),
            Instruction::MakeArray(a) => Instruction::MakeArray(*a),
            Instruction::Push(v) => Instruction::Push(v.duplicate()),
            Instruction::MakeClosure(k, e) => Instruction::MakeClosure(*k, *e),
            Instruction::MakeDict(k) => Instruction::MakeDict(*k),
            Instruction::Get => Instruction::Get,
            Instruction::Jump => Instruction::Jump,
            Instruction::Return => Instruction::Return,
            Instruction::Add => Instruction::Add,
            Instruction::Sub => Instruction::Sub,
            Instruction::Rem => Instruction::Rem,
            Instruction::Div => Instruction::Div,
            Instruction::Mul => Instruction::Mul,
            Instruction::And => Instruction::And,
            Instruction::Or => Instruction::Or,
            Instruction::Equal => Instruction::Equal,
            Instruction::NotEqual => Instruction::NotEqual,
            Instruction::SmallerEqual => Instruction::SmallerEqual,
            Instruction::GreaterEqual => Instruction::GreaterEqual,
            Instruction::BitwiseShiftLeft => Instruction::BitwiseShiftLeft,
            Instruction::BitwiseShiftRight => Instruction::BitwiseShiftRight,
            Instruction::BitwiseAnd => Instruction::BitwiseAnd,
            Instruction::BitwiseOr => Instruction::BitwiseOr,
            Instruction::BitwiseXor => Instruction::BitwiseXor,
            Instruction::BitwiseNot => Instruction::BitwiseNot,
            Instruction::Not => Instruction::Not,
            Instruction::Negation => Instruction::Negation,
        }
    }
}

} // verus!
