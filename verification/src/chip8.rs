//! The machine paced by a clock and joined to a frontend: a keyboard that
//! writes the key state and a display that is shown the framebuffer.

use vstd::prelude::*;
use crate::fault::Fault;
use crate::memory::{with_program, MemoryState};
use crate::model::{
    cycle, machine_outcome, step, ticks_spec, wants_random, MachineState, Outcome,
};

pub mod cpu;

verus! {

/// The nanoseconds between two instruction cycles: twelve cycles to each
/// sixtieth of a second.
pub const CYCLE_NANOS: u64 = 1_388_888;

/// The nanoseconds between two ticks of the timers: a sixtieth of a second.
pub const FRAME_NANOS: u64 = 16_666_666;

/// The source of key state.
pub trait Keyboard {
    /// Writes into `keys`, one entry for each key of the keypad, whether that
    /// key is pressed now, and tells whether the session goes on.
    fn update_keys(&mut self, keys: &mut [bool]) -> bool;
}

/// The sink of the picture.
pub trait Display {
    /// Is shown the framebuffer, row by row, 64 pixels to the row.
    fn update_screen(&mut self, screen: &[bool]);
}

/// Keeps count of the timer ticks against a clock: it holds the reading that
/// the last tick made stands for, and hands out the ticks owed since.
#[derive(Clone, Copy, Debug)]
pub struct FrameClock {
    last: u64,
}

/// A machine, its frontend, the clock reading at which the machine last ran a
/// cycle, and the count of its timer ticks.
pub struct Chip8<Frontend: Keyboard + Display> {
    cpu: cpu::Cpu,
    frontend: Frontend,
    last_cpu: u64,
    frames: FrameClock,
}

/// Whether at least `period` has passed from `last` to `elapsed`. Nothing is
/// due at a clock reading before `last`.
pub open spec fn is_due(elapsed: u64, last: u64, period: u64) -> bool {
    elapsed - last >= period
}

/// The number of whole periods that have passed from `last` to `elapsed`:
/// none at a clock reading before `last`.
pub open spec fn whole_periods(elapsed: u64, last: u64, period: u64) -> nat {
    if elapsed >= last && period > 0 {
        ((elapsed - last) / (period as int)) as nat
    } else {
        0
    }
}

/// The number of timer ticks that are owed at the clock reading `elapsed`
/// when the last tick made stands for the reading `last_timer`: one for each
/// whole frame period since.
pub open spec fn ticks_owed(elapsed: u64, last_timer: u64) -> nat {
    whole_periods(elapsed, last_timer, FRAME_NANOS)
}

/// What one pass at the clock reading `elapsed` makes of the machine `s`,
/// which last ran a cycle at `last_cpu` and whose last tick stands for the
/// reading `last_timer`. If a cycle is due it runs, with `random` for its
/// byte. If ticks are owed and no fault occurred, the key state becomes
/// `keys`, as the keyboard wrote it, and the timers tick once for each whole
/// frame period since `last_timer`, however many those are.
pub open spec fn pass_spec(
    s: MachineState,
    elapsed: u64,
    last_cpu: u64,
    last_timer: u64,
    random: u8,
    keys: Seq<bool>,
) -> Outcome {
    let cycle_due = is_due(elapsed, last_cpu, CYCLE_NANOS);
    let owed = ticks_owed(elapsed, last_timer);
    let ran = if cycle_due {
        cycle(s, random)
    } else {
        Outcome { state: s, fault: None }
    };
    if ran.fault.is_some() || owed == 0 {
        ran
    } else {
        Outcome {
            state: MachineState {
                cpu: ticks_spec(ran.state.cpu, owed),
                mem: MemoryState { keys, ..ran.state.mem },
            },
            fault: None,
        }
    }
}

/// Whether a pass ended as `outcome`: in its state, with its fault if it has
/// one, and else with an answer.
pub open spec fn pass_outcome(
    r: Result<bool, Fault>,
    after: MachineState,
    outcome: Outcome,
) -> bool {
    after == outcome.state && match outcome.fault {
        Some(f) => r == Err::<bool, Fault>(f),
        None => r.is_ok(),
    }
}

/// Whether at least `period` has passed from `last` to `elapsed`; never, if
/// the clock went back.
fn due(elapsed: u64, last: u64, period: u64) -> (d: bool)
    ensures
        d == is_due(elapsed, last, period),
{
    elapsed >= last && elapsed - last >= period
}

/// The number of whole periods that have passed from `last` to `elapsed`.
pub fn periods_since(elapsed: u64, last: u64, period: u64) -> (periods: u64)
    ensures
        periods == whole_periods(elapsed, last, period),
{
    if elapsed >= last && period > 0 {
        (elapsed - last) / period
    } else {
        0
    }
}

/// No tick is skipped. Let the timers have ticked `made` times, the last of
/// those ticks standing for the reading `made * FRAME_NANOS`. Then the ticks
/// owed at a later reading `elapsed` bring the count to the number of whole
/// frame periods in `elapsed`, however long it is since the last reading,
/// and the reading that the last of them stands for is not past `elapsed`.
pub proof fn law_no_tick_is_skipped(made: nat, elapsed: u64)
    requires
        made * FRAME_NANOS <= elapsed,
    ensures
        made + ticks_owed(elapsed, (made * FRAME_NANOS) as u64) == elapsed / FRAME_NANOS,
        (made + ticks_owed(elapsed, (made * FRAME_NANOS) as u64)) * FRAME_NANOS <= elapsed,
{
}

/// The number of ticks made in all by passes at each of `readings` in turn,
/// from a clock that started at zero.
pub open spec fn ticks_made(readings: Seq<u64>) -> nat
    decreases readings.len(),
{
    if readings.len() == 0 {
        0
    } else {
        let made = ticks_made(readings.drop_last());
        made + ticks_owed(readings.last(), (made * FRAME_NANOS) as u64)
    }
}

/// Over passes at clock readings that never go back, the timers tick in all
/// as many times as there are whole frame periods in the last reading,
/// however the readings are spaced.
pub proof fn law_ticks_made_are_whole_periods(readings: Seq<u64>)
    requires
        forall|i: int, j: int| 0 <= i <= j < readings.len() ==> readings[i] <= readings[j],
        readings.len() > 0,
    ensures
        ticks_made(readings) == readings.last() / FRAME_NANOS,
    decreases readings.len(),
{
    let earlier = readings.drop_last();
    if earlier.len() == 0 {
        law_no_tick_is_skipped(0, readings.last());
    } else {
        law_ticks_made_are_whole_periods(earlier);
        assert(earlier.last() == readings[readings.len() - 2]);
        law_no_tick_is_skipped(ticks_made(earlier), readings.last());
    }
}

/// A reading that lies less than a frame period after the one the last tick
/// stands for owes no tick, and what is owed never reaches past the reading.
pub proof fn law_ticks_owed_are_due(elapsed: u64, last_timer: u64)
    ensures
        elapsed - last_timer < FRAME_NANOS ==> ticks_owed(elapsed, last_timer) == 0,
        ticks_owed(elapsed, last_timer) > 0 <==> is_due(elapsed, last_timer, FRAME_NANOS),
        ticks_owed(elapsed, last_timer) > 0 ==> last_timer + ticks_owed(elapsed, last_timer)
            * FRAME_NANOS <= elapsed,
{
}

impl FrameClock {
    /// The clock reading that the last tick stands for.
    pub closed spec fn last(&self) -> u64 {
        self.last
    }

    /// A count that starts with the clock, at zero.
    pub fn new() -> (clock: FrameClock)
        ensures
            clock.last() == 0,
    {
        FrameClock { last: 0 }
    }

    /// The ticks owed at the clock reading `elapsed`: one for each whole frame
    /// period since the reading that the last tick stands for, which moves on
    /// by as many periods. A reading less than a period later owes none and
    /// moves nothing.
    pub fn advance(&mut self, elapsed: u64) -> (owed: u64)
        ensures
            owed == ticks_owed(elapsed, old(self).last()),
            final(self).last() == old(self).last() + owed * FRAME_NANOS,
            final(self).last() <= elapsed || owed == 0,
    {
        let owed: u64 = periods_since(elapsed, self.last, FRAME_NANOS);
        if owed > 0 {
            assert(self.last + owed * FRAME_NANOS <= elapsed);
            self.last = self.last + owed * FRAME_NANOS;
        }
        owed
    }
}

impl<Frontend: Keyboard + Display> Chip8<Frontend> {
    /// The state of the machine.
    pub closed spec fn view(&self) -> MachineState {
        self.cpu@
    }

    /// The frontend.
    pub closed spec fn spec_frontend(&self) -> Frontend {
        self.frontend
    }

    /// The clock reading at which the last cycle ran.
    pub closed spec fn last_cpu(&self) -> u64 {
        self.last_cpu
    }

    /// The clock reading that the last tick of the timers stands for: a whole
    /// number of frame periods after the start.
    pub closed spec fn last_timer(&self) -> u64 {
        self.frames.last()
    }

    /// A machine at its start, joined to the frontend `f`, with the clock at
    /// zero.
    pub fn new(f: Frontend) -> (chip8: Chip8<Frontend>)
        ensures
            chip8@ == cpu::initial_machine(),
            chip8.spec_frontend() == f,
            chip8.last_cpu() == 0,
            chip8.last_timer() == 0,
    {
        Chip8 { cpu: cpu::Cpu::new(), frontend: f, last_cpu: 0, frames: FrameClock::new() }
    }

    /// Loads `program` as the machine's own `load` does.
    pub fn load_program(&mut self, program: &[u8]) -> (r: Result<(), Fault>)
        ensures
            r.is_ok() <==> program@.len() <= 4096 - 0x200,
            r.is_err() ==> r == Err::<(), Fault>(Fault::ProgramTooLarge) && final(self)@ == old(
                self,
            )@,
            r.is_ok() ==> final(self)@ == (MachineState {
                mem: MemoryState {
                    ram: with_program(old(self)@.mem.ram, program@),
                    ..old(self)@.mem
                },
                ..old(self)@
            }),
            final(self).spec_frontend() == old(self).spec_frontend(),
            final(self).last_cpu() == old(self).last_cpu(),
            final(self).last_timer() == old(self).last_timer(),
    {
        self.cpu.load(program)
    }

    /// The machine.
    pub fn machine(&self) -> (machine: &cpu::Cpu)
        ensures
            machine@ == self@,
    {
        &self.cpu
    }

    /// The frontend.
    pub fn frontend(&self) -> (frontend: &Frontend)
        ensures
            *frontend == self.spec_frontend(),
    {
        &self.frontend
    }

    /// Ends a frame at the clock reading `elapsed`, once the keyboard has
    /// written the key state and answered `running` and the display has been
    /// shown the framebuffer. The timers tick once for each whole frame period
    /// since the reading that the last tick stands for, which moves on by as
    /// many periods. The answer is the keyboard's.
    pub fn end_frame(&mut self, elapsed: u64, running: bool) -> (r: bool)
        ensures
            r == running,
            final(self)@ == (MachineState {
                cpu: ticks_spec(old(self)@.cpu, ticks_owed(elapsed, old(self).last_timer())),
                ..old(self)@
            }),
            final(self).last_timer() == old(self).last_timer() + ticks_owed(
                elapsed,
                old(self).last_timer(),
            ) * FRAME_NANOS,
            final(self).last_cpu() == old(self).last_cpu(),
            final(self).spec_frontend() == old(self).spec_frontend(),
    {
        let owed: u64 = self.frames.advance(elapsed);
        self.cpu.tick_by(owed);
        running
    }

    /// One pass of the pacing loop at the clock reading `elapsed`, in
    /// nanoseconds. A cycle runs if one is due since the last. If at least one
    /// frame period has passed since the reading that the last tick stands
    /// for and no fault occurred, the keyboard writes the key state, the
    /// display is shown the framebuffer, and the timers tick once for each
    /// whole period that has passed, so that no tick is skipped when readings
    /// lie far apart. The answer tells whether the session goes on: what the
    /// keyboard said if it was asked, and yes if it was not.
    pub fn run(&mut self, elapsed: u64) -> (r: Result<bool, Fault>)
        ensures
            exists|random: u8, keys: Seq<bool>| #[trigger]
                pass_outcome(
                    r,
                    final(self)@,
                    pass_spec(
                        old(self)@,
                        elapsed,
                        old(self).last_cpu(),
                        old(self).last_timer(),
                        random,
                        keys,
                    ),
                ),
            ticks_owed(elapsed, old(self).last_timer()) == 0 && r.is_ok() ==> r == Ok::<
                bool,
                Fault,
            >(true),
            ticks_owed(elapsed, old(self).last_timer()) == 0 || r.is_err()
                ==> final(self).spec_frontend() == old(self).spec_frontend(),
            final(self).last_cpu() == (if r.is_ok() && is_due(
                elapsed,
                old(self).last_cpu(),
                CYCLE_NANOS,
            ) {
                elapsed
            } else {
                old(self).last_cpu()
            }),
            r.is_ok() ==> final(self).last_timer() == old(self).last_timer() + ticks_owed(
                elapsed,
                old(self).last_timer(),
            ) * FRAME_NANOS,
            r.is_err() ==> final(self).last_timer() == old(self).last_timer(),
    {
        let ghost start = self@;
        let ghost random: u8 = 0;
        let cycle_due: bool = due(elapsed, self.last_cpu, CYCLE_NANOS);
        let owed: u64 = periods_since(elapsed, self.frames.last, FRAME_NANOS);
        if cycle_due {
            if let Err(fault) = self.cpu.fetch() {
                assert(pass_outcome(
                    Err::<bool, Fault>(fault),
                    self@,
                    pass_spec(
                        start,
                        elapsed,
                        old(self).last_cpu(),
                        old(self).last_timer(),
                        0u8,
                        Seq::<bool>::empty(),
                    ),
                ));
                return Err(fault);
            }
            let ghost fetched = self@;
            let stepped = self.cpu.exec();
            proof {
                random = choose|random: u8|
                    (!wants_random(fetched.cpu.current) ==> random == 0)
                        && #[trigger] machine_outcome(
                        stepped,
                        fetched,
                        self@,
                        step(fetched, fetched.cpu.current, random),
                    );
            }
            if let Err(fault) = stepped {
                assert(pass_outcome(
                    Err::<bool, Fault>(fault),
                    self@,
                    pass_spec(
                        start,
                        elapsed,
                        old(self).last_cpu(),
                        old(self).last_timer(),
                        random,
                        Seq::<bool>::empty(),
                    ),
                ));
                return Err(fault);
            }
            self.last_cpu = elapsed;
        }
        let mut running: bool = true;
        if owed > 0 {
            let answer = self.frontend.update_keys(self.cpu.keys_pressed());
            self.frontend.update_screen(self.cpu.video_ram());
            running = self.end_frame(elapsed, answer);
        }
        assert(pass_outcome(
            Ok::<bool, Fault>(running),
            self@,
            pass_spec(
                start,
                elapsed,
                old(self).last_cpu(),
                old(self).last_timer(),
                random,
                self@.mem.keys,
            ),
        ));
        Ok(running)
    }
}

} // verus!
