//! A whole machine in one value: processor and memory together, with random
//! bytes taken from the thread-local generator of the `rand` crate.

use vstd::prelude::*;
use crate::fault::Fault;
use crate::keypad::{apply_key_event, ends_session, keys_after, KeyEvent};
use crate::cpu::{drawn_from, exec_with, lemma_drawn_leaves_zero, run_with};
use crate::memory::{
    all_clear, initial_ram, with_program, Memory, MemoryState, PROGRAM_START, RAM_SIZE,
};
use crate::model::{
    can_step, core_outcome, fetch_spec, initial_core, lemma_ticks, machine_outcome,
    run_outcome, run_spec, step, tick_spec, ticks_spec, unasked_are_zero, wants_random,
    CoreState, MachineState,
};
use crate::opcode::Opcode;
use crate::processor::Core;
use crate::stack::Stack;

verus! {

/// A machine: the processor and the memory it works on.
pub struct Cpu {
    core: Core,
    mem: Memory,
}

/// A byte from `rand::random::<u8>()`, which draws from the thread-local
/// generator. Nothing is claimed of the byte: any of the 256 values may come
/// back, and two calls may differ. The generator panics where the operating
/// system cannot seed it, which no argument here decides.
#[verifier::external_body]
fn random_byte() -> u8 {
    rand::random::<u8>()
}

/// A machine in which everything is zero: no font, no program, the program
/// counter at address 0.
pub open spec fn blank_machine() -> MachineState {
    MachineState {
        cpu: CoreState { pc: 0, ..initial_core() },
        mem: MemoryState {
            ram: Seq::new(RAM_SIZE as nat, |a: int| 0u8),
            video: all_clear(2048),
            keys: all_clear(16),
        },
    }
}

/// A machine at its start: the font in memory, the program counter at the load
/// offset.
pub open spec fn initial_machine() -> MachineState {
    MachineState {
        cpu: initial_core(),
        mem: MemoryState { ram: initial_ram(), video: all_clear(2048), keys: all_clear(16) },
    }
}

impl Default for Cpu {
    fn default() -> (cpu: Cpu)
        ensures
            cpu@ == blank_machine(),
    {
        let cpu = Cpu {
            core: Core {
                stack: Stack::new(),
                v: [0; 16],
                pc: 0,
                i: 0,
                dt: 0,
                st: 0,
                current: Opcode(0),
            },
            mem: Memory { ram: [0; 4096], video: [false; 2048], keys: [false; 16] },
        };
        assert(cpu@.cpu.v =~= blank_machine().cpu.v);
        assert(cpu@.mem.ram =~= blank_machine().mem.ram);
        assert(cpu@.mem.video =~= blank_machine().mem.video);
        assert(cpu@.mem.keys =~= blank_machine().mem.keys);
        cpu
    }
}

impl Cpu {
    /// The state of the machine.
    pub closed spec fn view(&self) -> MachineState {
        MachineState { cpu: self.core@, mem: self.mem@ }
    }

    /// A machine at its start.
    pub fn new() -> (cpu: Cpu)
        ensures
            cpu@ == initial_machine(),
    {
        Cpu { core: Core::new(), mem: Memory::new() }
    }

    /// Executes the instruction fetched last; RAND takes its byte from the
    /// thread-local generator. An instruction that faults leaves the machine
    /// as it was.
    pub fn exec(&mut self) -> (r: Result<(), Fault>)
        requires
            can_step(old(self)@.cpu),
        ensures
            exists|random: u8|
                (!wants_random(old(self)@.cpu.current) ==> random == 0)
                    && #[trigger] machine_outcome(
                    r,
                    old(self)@,
                    final(self)@,
                    step(old(self)@, old(self)@.cpu.current, random),
                ),
    {
        let r = exec_with(&mut self.core, &mut self.mem, &random_byte);
        proof {
            let random = choose|random: u8|
                (!wants_random(old(self)@.cpu.current) ==> random == 0)
                    && #[trigger] machine_outcome(
                    r,
                    old(self)@,
                    self@,
                    step(old(self)@, old(self)@.cpu.current, random),
                );
            assert(machine_outcome(
                r,
                old(self)@,
                self@,
                step(old(self)@, old(self)@.cpu.current, random),
            ));
        }
        r
    }

    /// Reads the instruction at the program counter and moves the program
    /// counter past it. Fails, changing nothing, when fewer than two bytes of
    /// memory remain there.
    pub fn fetch(&mut self) -> (r: Result<(), Fault>)
        ensures
            core_outcome(
                r,
                old(self)@.cpu,
                final(self)@.cpu,
                fetch_spec(old(self)@.cpu, old(self)@.mem.ram),
            ),
            final(self)@.mem == old(self)@.mem,
    {
        self.core.fetch(&self.mem)
    }

    /// Runs `cycles` cycles, each a fetch and the execution of what was
    /// fetched, and stops at the first fault. The machine ends where those
    /// cycles lead for the bytes that the thread-local generator handed to
    /// each RAND, with zero standing in for every cycle that asked for none.
    pub fn run(&mut self, cycles: usize) -> (r: Result<(), Fault>)
        ensures
            exists|randoms: Seq<u8>|
                randoms.len() == cycles && unasked_are_zero(old(self)@, randoms)
                    && #[trigger] run_outcome(r, final(self)@, run_spec(old(self)@, randoms)),
    {
        let r = run_with(&mut self.core, &mut self.mem, cycles, &random_byte);
        proof {
            let randoms = choose|randoms: Seq<u8>|
                randoms.len() == cycles && drawn_from(random_byte, old(self)@, randoms)
                    && #[trigger] run_outcome(r, self@, run_spec(old(self)@, randoms));
            lemma_drawn_leaves_zero(random_byte, old(self)@, randoms);
        }
        r
    }

    /// Lowers each timer by `periods`, stopping at zero: as many ticks as
    /// periods, none left out.
    pub fn tick_by(&mut self, periods: u64)
        ensures
            final(self)@ == (MachineState {
                cpu: ticks_spec(old(self)@.cpu, periods as nat),
                ..old(self)@
            }),
    {
        let mut made: u64 = 0;
        while made < periods && made < 255
            invariant
                made <= periods,
                made <= 255,
                self@ == (MachineState {
                    cpu: ticks_spec(old(self)@.cpu, made as nat),
                    ..old(self)@
                }),
            decreases 255 - made,
        {
            self.core.tick();
            made += 1;
        }
        proof {
            lemma_ticks(old(self)@.cpu, made as nat);
            lemma_ticks(old(self)@.cpu, periods as nat);
        }
    }

    /// Lowers each timer by one unless it is zero already.
    pub fn tick(&mut self)
        ensures
            final(self)@ == (MachineState { cpu: tick_spec(old(self)@.cpu), ..old(self)@ }),
    {
        self.core.tick();
    }

    /// Copies `program` into memory from the load offset on and touches
    /// nothing else. A program that does not fit is refused and nothing is
    /// written.
    pub fn load(&mut self, program: &[u8]) -> (r: Result<(), Fault>)
        ensures
            program@.len() <= RAM_SIZE - PROGRAM_START ==> r.is_ok() && final(self)@
                == (MachineState {
                mem: MemoryState {
                    ram: with_program(old(self)@.mem.ram, program@),
                    ..old(self)@.mem
                },
                ..old(self)@
            }),
            program@.len() > RAM_SIZE - PROGRAM_START ==> r == Err::<(), Fault>(
                Fault::ProgramTooLarge,
            ) && final(self)@ == old(self)@,
    {
        self.mem.load_program(program)
    }

    /// Takes what the keyboard reports into the key state and tells whether
    /// the session goes on.
    pub fn key_event(&mut self, event: KeyEvent) -> (running: bool)
        ensures
            running == !ends_session(event),
            final(self)@ == (MachineState {
                mem: MemoryState { keys: keys_after(old(self)@.mem.keys, event), ..old(self)@.mem },
                ..old(self)@
            }),
    {
        apply_key_event(&mut self.mem.keys, event)
    }

    /// The framebuffer, row by row.
    pub fn video_ram(&self) -> (video: &[bool])
        ensures
            video@ == self@.mem.video,
    {
        self.mem.video.as_slice()
    }

    /// The state of the sixteen keys, for the keyboard to write.
    pub fn keys_pressed(&mut self) -> (keys: &mut [bool])
        ensures
            keys@ == old(self)@.mem.keys,
            final(self)@ == (MachineState {
                mem: MemoryState { keys: final(keys)@, ..old(self)@.mem },
                ..old(self)@
            }),
    {
        &mut self.mem.keys
    }

    /// The registers, counters and stack.
    pub fn state(&self) -> (state: &Core)
        ensures
            state@ == self@.cpu,
    {
        &self.core
    }

    /// The memory.
    pub fn memory(&self) -> (memory: &Memory)
        ensures
            memory@ == self@.mem,
    {
        &self.mem
    }
}

} // verus!
