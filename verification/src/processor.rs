//! The processor proper: registers, program counter, index register, timers
//! and call stack.

use vstd::prelude::*;
use vstd::slice::slice_subrange;
use crate::fault::Fault;
use crate::memory::Memory;
use crate::model::{core_outcome, fetch_spec, initial_core, tick_spec, CoreState};
use crate::opcode::Opcode;
use crate::stack::Stack;

verus! {

/// The state of the processor.
#[derive(Clone, Copy, Debug)]
pub struct Core {
    /// The pending return addresses.
    pub stack: Stack,
    /// The general-purpose registers v0 to vF; vF doubles as the flag.
    pub v: [u8; 16],
    /// The program counter.
    pub pc: u16,
    /// The index register.
    pub i: u16,
    /// The delay timer.
    pub dt: u8,
    /// The sound timer.
    pub st: u8,
    /// The instruction fetched last.
    pub current: Opcode,
}

impl Core {
    /// The state of the processor.
    pub open spec fn view(&self) -> CoreState {
        CoreState {
            v: self.v@,
            pc: self.pc,
            i: self.i,
            dt: self.dt,
            st: self.st,
            stack: self.stack@,
            current: self.current,
        }
    }

    /// The processor at machine start.
    pub fn new() -> (c: Core)
        ensures
            c@ == initial_core(),
    {
        let c = Core {
            stack: Stack::new(),
            v: [0; 16],
            pc: 0x200,
            i: 0,
            dt: 0,
            st: 0,
            current: Opcode(0),
        };
        assert(c@.v =~= initial_core().v);
        c
    }

    /// Puts the processor back to how it is at machine start.
    pub fn reset(&mut self)
        ensures
            final(self)@ == initial_core(),
    {
        self.stack.clear();
        self.v = [0; 16];
        self.pc = 0x200;
        self.i = 0;
        self.dt = 0;
        self.st = 0;
        self.current = Opcode(0);
        assert(self@.v =~= initial_core().v);
    }

    /// Lowers each timer by one unless it is zero already.
    pub fn tick(&mut self)
        ensures
            final(self)@ == tick_spec(old(self)@),
    {
        if self.st > 0 {
            self.st -= 1;
        }
        if self.dt > 0 {
            self.dt -= 1;
        }
    }

    /// Reads the instruction at the program counter into `current` and moves
    /// the program counter past it. Fails, changing nothing, when fewer than
    /// two bytes of memory remain there.
    pub fn fetch(&mut self, mem: &Memory) -> (r: Result<(), Fault>)
        ensures
            core_outcome(r, old(self)@, final(self)@, fetch_spec(old(self)@, mem@.ram)),
    {
        let pc: usize = self.pc as usize;
        if pc > 4096 {
            return Err(Fault::InsufficientBytes);
        }
        let rest = slice_subrange(mem.ram.as_slice(), pc, 4096);
        match Opcode::read(rest) {
            None => Err(Fault::InsufficientBytes),
            Some(op) => {
                self.current = op;
                self.pc += 2;
                Ok(())
            },
        }
    }
}

} // verus!
