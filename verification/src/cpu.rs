//! The processor together with the generator of random bytes that it was
//! made with.

use vstd::prelude::*;
use crate::fault::Fault;
use crate::instructions;
use crate::memory::Memory;
use crate::model::{
    asks_random, can_step, core_outcome, fetch_spec, initial_core, lemma_run_stays_faulted,
    machine_outcome, run_outcome, run_spec, step, tick_spec, unasked_are_zero, wants_random,
    CoreState, MachineState,
};
use crate::processor::Core;

verus! {

/// A processor and its source of random bytes. The source is a function of no
/// arguments; only the RAND instruction calls it.
pub struct Cpu<R: Fn() -> u8> {
    core: Core,
    rand: R,
}

/// Whether `randoms` holds, for each cycle of the run from `s` that asks for
/// a random byte, a byte that `generator` may hand out, and zero for every
/// other cycle.
pub open spec fn drawn_from<R: Fn() -> u8>(
    generator: R,
    s: MachineState,
    randoms: Seq<u8>,
) -> bool {
    forall|k: int|
        0 <= k < randoms.len() ==> if #[trigger] asks_random(s, randoms, k) {
            call_ensures(generator, (), randoms[k])
        } else {
            randoms[k] == 0
        }
}

/// Bytes that were drawn as the cycles asked have zero wherever none was
/// asked for.
pub proof fn lemma_drawn_leaves_zero<R: Fn() -> u8>(
    generator: R,
    s: MachineState,
    randoms: Seq<u8>,
)
    requires
        drawn_from(generator, s, randoms),
    ensures
        unasked_are_zero(s, randoms),
{
    assert forall|k: int| 0 <= k < randoms.len() implies #[trigger] asks_random(s, randoms, k)
        || randoms[k] == 0 by {}
}

/// Executes the instruction that `core` fetched last. `generator` is called
/// once if that instruction is RAND and not at all otherwise. An instruction
/// that faults leaves the machine as it was.
pub(crate) fn exec_with<G: Fn() -> u8>(
    core: &mut Core,
    mem: &mut Memory,
    generator: &G,
) -> (r: Result<(), Fault>)
    requires
        can_step(old(core)@),
        call_requires(*generator, ()),
    ensures
        exists|random: u8|
            (wants_random(old(core)@.current) ==> call_ensures(*generator, (), random)) && (
            !wants_random(old(core)@.current) ==> random == 0) && #[trigger] machine_outcome(
                r,
                MachineState { cpu: old(core)@, mem: old(mem)@ },
                MachineState { cpu: final(core)@, mem: final(mem)@ },
                step(MachineState { cpu: old(core)@, mem: old(mem)@ }, old(core)@.current, random),
            ),
{
    let op = core.current;
    let random: u8 = if op.group() == 0xC {
        generator()
    } else {
        0
    };
    let r = instructions::exec(core, mem, op, random);
    assert(machine_outcome(
        r,
        MachineState { cpu: old(core)@, mem: old(mem)@ },
        MachineState { cpu: core@, mem: mem@ },
        step(MachineState { cpu: old(core)@, mem: old(mem)@ }, old(core)@.current, random),
    ));
    r
}

/// Runs `cycles` cycles on `core` and `mem`, each a fetch and the execution
/// of what was fetched, and stops at the first fault. `generator` is called
/// once for each RAND that is executed.
pub(crate) fn run_with<G: Fn() -> u8>(
    core: &mut Core,
    mem: &mut Memory,
    cycles: usize,
    generator: &G,
) -> (r: Result<(), Fault>)
    requires
        call_requires(*generator, ()),
    ensures
        exists|randoms: Seq<u8>|
            randoms.len() == cycles && drawn_from(
                *generator,
                MachineState { cpu: old(core)@, mem: old(mem)@ },
                randoms,
            ) && #[trigger] run_outcome(
                r,
                MachineState { cpu: final(core)@, mem: final(mem)@ },
                run_spec(MachineState { cpu: old(core)@, mem: old(mem)@ }, randoms),
            ),
{
    let ghost start = MachineState { cpu: core@, mem: mem@ };
    let ghost randoms: Seq<u8> = Seq::empty();
    let mut done: usize = 0;
    while done < cycles
        invariant
            done <= cycles,
            randoms.len() == done,
            call_requires(*generator, ()),
            drawn_from(*generator, start, randoms),
            start == (MachineState { cpu: old(core)@, mem: old(mem)@ }),
            run_spec(start, randoms).fault.is_none(),
            run_spec(start, randoms).state == (MachineState { cpu: core@, mem: mem@ }),
        decreases cycles - done,
    {
        let ghost here = MachineState { cpu: core@, mem: mem@ };
        let ghost rest: Seq<u8> = Seq::new((cycles - done - 1) as nat, |k: int| 0u8);
        let fetched = core.fetch(mem);
        let mut random: u8 = 0;
        let mut stepped: Result<(), Fault> = fetched;
        if fetched.is_ok() {
            let op = core.current;
            if op.group() == 0xC {
                random = generator();
            }
            stepped = instructions::exec(core, mem, op, random);
        }
        proof {
            let used = randoms.push(random);
            assert(used.drop_last() =~= randoms);
            assert(used.subrange(0, done as int) =~= randoms);
            assert(drawn_from(*generator, start, used)) by {
                assert forall|k: int| 0 <= k < used.len() implies if #[trigger] asks_random(
                    start,
                    used,
                    k,
                ) {
                    call_ensures(*generator, (), used[k])
                } else {
                    used[k] == 0
                } by {
                    if k < done {
                        assert(used.subrange(0, k) =~= randoms.subrange(0, k));
                        assert(asks_random(start, randoms, k) == asks_random(start, used, k));
                    }
                }
            }
            if stepped.is_err() {
                let all = used + rest;
                lemma_run_stays_faulted(start, used, rest);
                assert(drawn_from(*generator, start, all)) by {
                    assert forall|k: int| 0 <= k < all.len() implies if #[trigger] asks_random(
                        start,
                        all,
                        k,
                    ) {
                        call_ensures(*generator, (), all[k])
                    } else {
                        all[k] == 0
                    } by {
                        if k < used.len() {
                            assert(all.subrange(0, k) =~= used.subrange(0, k));
                            assert(asks_random(start, used, k) == asks_random(start, all, k));
                        } else {
                            let more = rest.subrange(0, k - used.len());
                            assert(all.subrange(0, k) =~= used + more);
                            lemma_run_stays_faulted(start, used, more);
                        }
                    }
                }
                assert(run_outcome(
                    stepped,
                    MachineState { cpu: core@, mem: mem@ },
                    run_spec(start, all),
                ));
            }
            randoms = used;
        }
        if let Err(fault) = stepped {
            return Err(fault);
        }
        done += 1;
    }
    assert(run_outcome(
        Ok::<(), Fault>(()),
        MachineState { cpu: core@, mem: mem@ },
        run_spec(start, randoms),
    ));
    Ok(())
}

impl<R: Fn() -> u8> Cpu<R> {
    /// The generator can always be called.
    #[verifier::type_invariant]
    spec fn generator_is_total(&self) -> bool {
        call_requires(self.rand, ())
    }

    /// The state of the processor.
    pub closed spec fn view(&self) -> CoreState {
        self.core@
    }

    /// The source of random bytes.
    pub closed spec fn generator(&self) -> R {
        self.rand
    }

    /// A processor at machine start that will take its random bytes from
    /// `rand`, a function that can be called whenever a byte is wanted.
    pub fn new(rand: R) -> (cpu: Self)
        requires
            call_requires(rand, ()),
        ensures
            cpu@ == initial_core(),
            cpu.generator() == rand,
    {
        Cpu { core: Core::new(), rand }
    }

    /// Puts the processor back to how it is at machine start. The generator
    /// stays.
    pub fn reset(&mut self)
        ensures
            final(self)@ == initial_core(),
            final(self).generator() == old(self).generator(),
    {
        proof {
            use_type_invariant(&*self);
        }
        self.core = Core::new();
    }

    /// Lowers each timer by one unless it is zero already. Nothing else
    /// changes the timers but the instructions that load them.
    pub fn tick(&mut self)
        ensures
            final(self)@ == tick_spec(old(self)@),
            final(self).generator() == old(self).generator(),
    {
        proof {
            use_type_invariant(&*self);
        }
        let mut core = self.core;
        core.tick();
        self.core = core;
    }

    /// The registers, counters and stack.
    pub fn state(&self) -> (state: &Core)
        ensures
            state@ == self@,
    {
        &self.core
    }

    /// Reads the instruction at the program counter and moves the program
    /// counter past it. Fails, changing nothing, when fewer than two bytes of
    /// memory remain there.
    pub fn fetch(&mut self, mem: &Memory) -> (r: Result<(), Fault>)
        ensures
            core_outcome(r, old(self)@, final(self)@, fetch_spec(old(self)@, mem@.ram)),
            final(self).generator() == old(self).generator(),
    {
        proof {
            use_type_invariant(&*self);
        }
        let mut core = self.core;
        let r = core.fetch(mem);
        self.core = core;
        r
    }

    /// Executes the instruction fetched last. The generator is called once if
    /// that instruction is RAND and not at all otherwise. An instruction that
    /// faults leaves the machine as it was.
    pub fn exec(&mut self, mem: &mut Memory) -> (r: Result<(), Fault>)
        requires
            can_step(old(self)@),
        ensures
            final(self).generator() == old(self).generator(),
            exists|random: u8|
                (wants_random(old(self)@.current) ==> call_ensures(
                    old(self).generator(),
                    (),
                    random,
                )) && (!wants_random(old(self)@.current) ==> random == 0)
                    && #[trigger] machine_outcome(
                    r,
                    MachineState { cpu: old(self)@, mem: old(mem)@ },
                    MachineState { cpu: final(self)@, mem: final(mem)@ },
                    step(
                        MachineState { cpu: old(self)@, mem: old(mem)@ },
                        old(self)@.current,
                        random,
                    ),
                ),
    {
        proof {
            use_type_invariant(&*self);
        }
        let mut core = self.core;
        let r = exec_with(&mut core, mem, &self.rand);
        self.core = core;
        r
    }

    /// Runs `cycles` cycles, each a fetch and the execution of what was
    /// fetched, and stops at the first fault. The generator is called once for
    /// each RAND that is executed, and the machine ends where the cycles lead
    /// for the bytes that it handed out.
    pub fn run(&mut self, memory: &mut Memory, cycles: usize) -> (r: Result<(), Fault>)
        ensures
            final(self).generator() == old(self).generator(),
            exists|randoms: Seq<u8>|
                randoms.len() == cycles && drawn_from(
                    old(self).generator(),
                    MachineState { cpu: old(self)@, mem: old(memory)@ },
                    randoms,
                ) && #[trigger] run_outcome(
                    r,
                    MachineState { cpu: final(self)@, mem: final(memory)@ },
                    run_spec(MachineState { cpu: old(self)@, mem: old(memory)@ }, randoms),
                ),
    {
        proof {
            use_type_invariant(&*self);
        }
        // The cycles work on a copy, which is then put back.
        let mut core = self.core;
        let r = run_with(&mut core, memory, cycles, &self.rand);
        self.core = core;
        r
    }
}

} // verus!
