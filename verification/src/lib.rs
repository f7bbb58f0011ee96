//! A CHIP-8 virtual machine: memory, call stack, instruction decoding and the
//! semantics of every instruction, each stated as a contract over a
//! mathematical model of the machine state.

pub mod fault;
pub mod opcode;
pub mod stack;
pub mod memory;
pub mod model;
pub mod processor;
pub mod instructions;
pub mod cpu;
pub mod laws;
pub mod chip8;
pub mod keypad;

pub use cpu::Cpu;
pub use fault::Fault;
pub use memory::Memory;
pub use opcode::Opcode;
pub use processor::Core;
pub use stack::Stack;
