//! A small stack-based virtual machine for a JavaScript-like language: the
//! arena that holds heap objects, the value model with its coercions and
//! operators, the instruction set, the machine itself, and the front end
//! pieces that a compiler builds on (scopes, keywords, the parser).
pub mod arena;
pub mod instruction;
pub mod keywords;
pub mod machine;
pub mod parse;
pub mod scope;
pub mod value;

pub use arena::{Arena, ArenaView};
pub use instruction::{Instruction, StackAddress};
pub use keywords::is_keyword;
pub use machine::{Fault, MachineView, VirtualMachine};
pub use scope::Scope;
pub use value::{number_to_string, InstructionAddress, NumericOp, Object, Upcast, Value, ValueView};
