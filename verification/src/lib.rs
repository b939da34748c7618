pub mod ast;
pub mod instr;
pub mod interpreter;
pub mod runnable;
pub mod fucker;
pub mod program;
pub mod jit_promise;
pub mod jit_target;
pub mod code_gen;
pub mod jit_memory;
pub mod immutable;
pub mod syscall;
