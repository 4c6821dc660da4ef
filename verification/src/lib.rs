//! Execution runtime of a small dynamically typed language: a tagged value
//! model with overflow-aware ("upflowing") arithmetic, a collector-owned heap
//! for boxed payloads, a register-based bytecode interpreter, and a jump
//! resolver that lowers an instruction stream into a directly runnable plan of
//! trampoline calls.

pub mod bigint;
pub mod codec;
pub mod error;
pub mod escape;
pub mod gc;
pub mod instruction;
pub mod jit;
pub mod text;
pub mod value;
pub mod vm;
