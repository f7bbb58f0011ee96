//! The mathematical model of the machine: the state of the processor and of
//! memory as plain values, and what each instruction makes of them.

use vstd::prelude::*;
use crate::fault::Fault;
use crate::memory::{
    all_clear, MemoryState, KEY_COUNT, RAM_SIZE, SCREEN_HEIGHT, SCREEN_WIDTH, VIDEO_SIZE,
};
use crate::opcode::Opcode;
use crate::stack::STACK_DEPTH;

verus! {

/// The index of the flag register, vF.
pub const FLAG: u8 = 0xF;

/// The mathematical content of the processor.
pub struct CoreState {
    /// The sixteen general-purpose registers.
    pub v: Seq<u8>,
    /// The program counter.
    pub pc: u16,
    /// The index register.
    pub i: u16,
    /// The delay timer.
    pub dt: u8,
    /// The sound timer.
    pub st: u8,
    /// The pending return addresses, the oldest first.
    pub stack: Seq<u16>,
    /// The instruction fetched last.
    pub current: Opcode,
}

/// The whole machine: processor and memory.
pub struct MachineState {
    pub cpu: CoreState,
    pub mem: MemoryState,
}

impl CoreState {
    /// Whether the register file is whole and the stack within its bound.
    pub open spec fn wf(self) -> bool {
        self.v.len() == 16 && self.stack.len() <= STACK_DEPTH
    }

    /// This state with register `x` holding `b`.
    pub open spec fn with_v(self, x: u8, b: u8) -> CoreState {
        CoreState { v: self.v.update(x as int, b), ..self }
    }

    /// This state with the flag register holding 1 if `set`, else 0.
    pub open spec fn with_flag(self, set: bool) -> CoreState {
        self.with_v(FLAG, if set { 1u8 } else { 0u8 })
    }

    /// This state with the program counter at `pc`.
    pub open spec fn with_pc(self, pc: u16) -> CoreState {
        CoreState { pc, ..self }
    }

    /// This state with the index register at `i`.
    pub open spec fn with_i(self, i: u16) -> CoreState {
        CoreState { i, ..self }
    }

    /// This state with the next instruction skipped if `taken`.
    pub open spec fn skip(self, taken: bool) -> CoreState {
        if taken {
            self.with_pc((self.pc + 2) as u16)
        } else {
            self
        }
    }
}

/// The processor at machine start: everything zero, the program counter at
/// the load offset, nothing on the stack.
pub open spec fn initial_core() -> CoreState {
    CoreState {
        v: Seq::new(16, |r: int| 0u8),
        pc: 0x200,
        i: 0,
        dt: 0,
        st: 0,
        stack: Seq::empty(),
        current: Opcode(0),
    }
}

/// Both timers one lower, each stopping at zero.
pub open spec fn tick_spec(c: CoreState) -> CoreState {
    CoreState {
        dt: if c.dt > 0 { (c.dt - 1) as u8 } else { 0 },
        st: if c.st > 0 { (c.st - 1) as u8 } else { 0 },
        ..c
    }
}

/// The timers after `n` ticks, one after the other.
pub open spec fn ticks_spec(c: CoreState, n: nat) -> CoreState
    decreases n,
{
    if n == 0 {
        c
    } else {
        tick_spec(ticks_spec(c, (n - 1) as nat))
    }
}

/// After `n` ticks each timer is lower by `n`, or at zero if it held less.
pub proof fn lemma_ticks(c: CoreState, n: nat)
    ensures
        ticks_spec(c, n) == (CoreState {
            dt: if c.dt > n { (c.dt - n) as u8 } else { 0 },
            st: if c.st > n { (c.st - n) as u8 } else { 0 },
            ..c
        }),
    decreases n,
{
    if n > 0 {
        lemma_ticks(c, (n - 1) as nat);
    }
}

/// Whether the `len` bytes from address `i` on lie within RAM. No bytes at all
/// lie within it wherever they start.
pub open spec fn in_ram(i: int, len: int) -> bool {
    len <= 0 || i + len <= RAM_SIZE
}

/// Fetching: the two bytes at the program counter become the current
/// instruction, and the program counter moves past them.
pub open spec fn fetch_spec(c: CoreState, ram: Seq<u8>) -> Result<CoreState, Fault> {
    if c.pc + 2 > RAM_SIZE {
        Err(Fault::InsufficientBytes)
    } else {
        Ok(
            CoreState {
                current: Opcode((ram[c.pc as int] * 256 + ram[c.pc + 1]) as u16),
                pc: (c.pc + 2) as u16,
                ..c
            },
        )
    }
}

// ---------------------------------------------------------------------------
// Control flow
// ---------------------------------------------------------------------------
/// CLR: the screen is blank; RAM and keys are as they were.
pub open spec fn clr_spec(m: MemoryState) -> MemoryState {
    MemoryState { video: all_clear(VIDEO_SIZE as nat), ..m }
}

/// RTS: the newest return address leaves the stack and becomes the program
/// counter; with none pending, a stack underflow.
pub open spec fn rts_spec(c: CoreState) -> Result<CoreState, Fault> {
    if c.stack.len() == 0 {
        Err(Fault::StackUnderflow)
    } else {
        Ok(CoreState { pc: c.stack.last(), stack: c.stack.drop_last(), ..c })
    }
}

/// JUMP: the program counter is `nnn`.
pub open spec fn jump_spec(c: CoreState, nnn: u16) -> CoreState {
    c.with_pc(nnn)
}

/// CALL: the program counter goes on the stack and becomes `nnn`; with sixteen
/// addresses pending, a stack overflow.
pub open spec fn call_spec(c: CoreState, nnn: u16) -> Result<CoreState, Fault> {
    if c.stack.len() >= STACK_DEPTH {
        Err(Fault::StackOverflow)
    } else {
        Ok(CoreState { pc: nnn, stack: c.stack.push(c.pc), ..c })
    }
}

/// JUMPI: the program counter is `nnn` plus register 0.
pub open spec fn jumpi_spec(c: CoreState, nnn: u16) -> CoreState {
    c.with_pc((c.v[0] + nnn) as u16)
}

/// SKE: a skip if register `x` holds `nn`.
pub open spec fn ske_spec(c: CoreState, x: u8, nn: u8) -> CoreState {
    c.skip(c.v[x as int] == nn)
}

/// SKNE: a skip unless register `x` holds `nn`.
pub open spec fn skne_spec(c: CoreState, x: u8, nn: u8) -> CoreState {
    c.skip(c.v[x as int] != nn)
}

/// SKRE: a skip if registers `x` and `y` are equal.
pub open spec fn skre_spec(c: CoreState, x: u8, y: u8) -> CoreState {
    c.skip(c.v[x as int] == c.v[y as int])
}

/// SKRNE: a skip if registers `x` and `y` differ.
pub open spec fn skrne_spec(c: CoreState, x: u8, y: u8) -> CoreState {
    c.skip(c.v[x as int] != c.v[y as int])
}

// ---------------------------------------------------------------------------
// Keys
// ---------------------------------------------------------------------------
/// SKP: a skip if the key that register `x` names is pressed; a register that
/// names no key is a fault.
pub open spec fn skp_spec(c: CoreState, keys: Seq<bool>, x: u8) -> Result<CoreState, Fault> {
    if c.v[x as int] >= KEY_COUNT {
        Err(Fault::OutOfBounds)
    } else {
        Ok(c.skip(keys[c.v[x as int] as int]))
    }
}

/// SKNP: a skip unless the key that register `x` names is pressed; a register
/// that names no key is a fault.
pub open spec fn sknp_spec(c: CoreState, keys: Seq<bool>, x: u8) -> Result<CoreState, Fault> {
    if c.v[x as int] >= KEY_COUNT {
        Err(Fault::OutOfBounds)
    } else {
        Ok(c.skip(!keys[c.v[x as int] as int]))
    }
}

/// Whether `k` is a pressed key with no pressed key below it.
pub open spec fn is_lowest_pressed(keys: Seq<bool>, k: int) -> bool {
    0 <= k < keys.len() && keys[k] && forall|j: int| 0 <= j < k ==> !keys[j]
}

/// The pressed key with the lowest index, if any key is pressed.
pub open spec fn lowest_pressed(keys: Seq<bool>) -> Option<int> {
    if exists|k: int| is_lowest_pressed(keys, k) {
        Some(choose|k: int| is_lowest_pressed(keys, k))
    } else {
        None
    }
}

/// Waiting for a key: with a key pressed its index goes to register `x`;
/// with none the program counter steps back onto this instruction.
pub open spec fn keyd_spec(c: CoreState, keys: Seq<bool>, x: u8) -> CoreState {
    match lowest_pressed(keys) {
        Some(k) => c.with_v(x, k as u8),
        None => c.with_pc((c.pc - 2) as u16),
    }
}

// ---------------------------------------------------------------------------
// Registers and arithmetic
// ---------------------------------------------------------------------------
/// LOAD: register `x` holds `nn`.
pub open spec fn load_spec(c: CoreState, x: u8, nn: u8) -> CoreState {
    c.with_v(x, nn)
}

/// ADD: register `x` holds its former value plus `nn`, modulo 256.
pub open spec fn add_spec(c: CoreState, x: u8, nn: u8) -> CoreState {
    c.with_v(x, ((c.v[x as int] + nn) % 256) as u8)
}

/// MOVE: register `x` holds what register `y` holds.
pub open spec fn mov_spec(c: CoreState, x: u8, y: u8) -> CoreState {
    c.with_v(x, c.v[y as int])
}

/// OR: register `x` holds the bitwise or of the two registers.
pub open spec fn or_spec(c: CoreState, x: u8, y: u8) -> CoreState {
    c.with_v(x, c.v[x as int] | c.v[y as int])
}

/// AND: register `x` holds the bitwise and of the two registers.
pub open spec fn and_spec(c: CoreState, x: u8, y: u8) -> CoreState {
    c.with_v(x, c.v[x as int] & c.v[y as int])
}

/// XOR: register `x` holds the bitwise exclusive or of the two registers.
pub open spec fn xor_spec(c: CoreState, x: u8, y: u8) -> CoreState {
    c.with_v(x, c.v[x as int] ^ c.v[y as int])
}

/// The sum goes to register `x`, then the carry to the flag register.
pub open spec fn addr_spec(c: CoreState, x: u8, y: u8) -> CoreState {
    let sum = c.v[x as int] + c.v[y as int];
    c.with_v(x, (sum % 256) as u8).with_flag(sum > 255)
}

/// `vx - vy` goes to register `x`, then "no borrow" to the flag register.
pub open spec fn sub_spec(c: CoreState, x: u8, y: u8) -> CoreState {
    let a = c.v[x as int];
    let b = c.v[y as int];
    c.with_v(x, ((a - b) % 256) as u8).with_flag(a >= b)
}

/// `vy - vx` goes to register `x`, then "no borrow" to the flag register.
pub open spec fn subn_spec(c: CoreState, x: u8, y: u8) -> CoreState {
    let a = c.v[y as int];
    let b = c.v[x as int];
    c.with_v(x, ((a - b) % 256) as u8).with_flag(a >= b)
}

/// The low bit of register `x` goes to the flag register, then register `x`
/// is halved.
pub open spec fn shr_spec(c: CoreState, x: u8) -> CoreState {
    let flagged = c.with_flag(c.v[x as int] % 2 == 1);
    flagged.with_v(x, (flagged.v[x as int] / 2) as u8)
}

/// The high bit of register `x` goes to the flag register, then register `x`
/// is doubled, wrapping.
pub open spec fn shl_spec(c: CoreState, x: u8) -> CoreState {
    let flagged = c.with_flag(c.v[x as int] >= 128);
    flagged.with_v(x, ((flagged.v[x as int] * 2) % 256) as u8)
}

/// RAND: register `x` holds the bits of `random` that the mask `nn` lets
/// through.
pub open spec fn rand_spec(c: CoreState, x: u8, nn: u8, random: u8) -> CoreState {
    c.with_v(x, nn & random)
}

// ---------------------------------------------------------------------------
// Timers and the index register
// ---------------------------------------------------------------------------
/// MOVED: register `x` holds the delay timer.
pub open spec fn moved_spec(c: CoreState, x: u8) -> CoreState {
    c.with_v(x, c.dt)
}

/// LOADD: the delay timer holds register `x`.
pub open spec fn loadd_spec(c: CoreState, x: u8) -> CoreState {
    CoreState { dt: c.v[x as int], ..c }
}

/// LOADS: the sound timer holds register `x`.
pub open spec fn loads_spec(c: CoreState, x: u8) -> CoreState {
    CoreState { st: c.v[x as int], ..c }
}

/// LOADI: the index register holds `nnn`.
pub open spec fn loadi_spec(c: CoreState, nnn: u16) -> CoreState {
    c.with_i(nnn)
}

/// ADDI: the index register holds its former value plus register `x`; a sum
/// past sixteen bits is a fault.
pub open spec fn addi_spec(c: CoreState, x: u8) -> Result<CoreState, Fault> {
    if c.i + c.v[x as int] > u16::MAX {
        Err(Fault::OutOfBounds)
    } else {
        Ok(c.with_i((c.i + c.v[x as int]) as u16))
    }
}

/// LDSPR: the index register holds the address of the glyph for the digit in
/// register `x`, five bytes to the glyph.
pub open spec fn ldspr_spec(c: CoreState, x: u8) -> CoreState {
    c.with_i((c.v[x as int] * 5) as u16)
}

// ---------------------------------------------------------------------------
// Memory
// ---------------------------------------------------------------------------
/// The hundreds, tens and units of `b`.
pub open spec fn decimal_digits(b: u8) -> Seq<u8> {
    seq![(b / 100) as u8, ((b / 10) % 10) as u8, (b % 10) as u8]
}

/// BCD: the three bytes at the index register hold the hundreds, tens and
/// units of register `x`; bytes past the end of RAM are a fault.
pub open spec fn bcd_spec(c: CoreState, m: MemoryState, x: u8) -> Result<MemoryState, Fault> {
    if !in_ram(c.i as int, 3) {
        Err(Fault::OutOfBounds)
    } else {
        let d = decimal_digits(c.v[x as int]);
        Ok(
            MemoryState {
                ram: m.ram.update(c.i as int, d[0]).update(c.i + 1, d[1]).update(c.i + 2, d[2]),
                ..m
            },
        )
    }
}

/// Registers v0 up to but not including `x` go to memory from the index
/// register on.
pub open spec fn stor_spec(c: CoreState, m: MemoryState, x: u8) -> Result<MemoryState, Fault> {
    if !in_ram(c.i as int, x as int) {
        Err(Fault::OutOfBounds)
    } else {
        Ok(
            MemoryState {
                ram: Seq::new(
                    m.ram.len(),
                    |a: int|
                        if c.i <= a < c.i + x {
                            c.v[a - c.i]
                        } else {
                            m.ram[a]
                        },
                ),
                ..m
            },
        )
    }
}

/// Registers v0 up to and including `x` are filled from memory from the index
/// register on.
pub open spec fn read_spec(c: CoreState, ram: Seq<u8>, x: u8) -> Result<CoreState, Fault> {
    if !in_ram(c.i as int, x + 1) {
        Err(Fault::OutOfBounds)
    } else {
        Ok(
            CoreState {
                v: Seq::new(
                    c.v.len(),
                    |r: int|
                        if r <= x {
                            ram[c.i + r]
                        } else {
                            c.v[r]
                        },
                ),
                ..c
            },
        )
    }
}

// ---------------------------------------------------------------------------
// Drawing
// ---------------------------------------------------------------------------
/// A sprite placed on the screen: its rows from the top down, each eight
/// pixels wide with the most significant bit leftmost, and the position of
/// its top left corner. A position past the screen wraps round.
pub struct Sprite {
    pub rows: Seq<u8>,
    pub x: int,
    pub y: int,
}

/// Whether pixel `col` of a sprite row, counted from the left, is set.
pub open spec fn row_bit(row: u8, col: u8) -> bool {
    row & (0x80u8 >> col) != 0
}

/// The index in the framebuffer of the pixel in column `px` of row `py`.
pub open spec fn pixel_index(px: int, py: int) -> int {
    px + SCREEN_WIDTH * py
}

impl Sprite {
    /// The column of the sprite that falls on screen column `px`.
    pub open spec fn col_at(self, px: int) -> int {
        (px - self.x) % (SCREEN_WIDTH as int)
    }

    /// The row of the sprite that falls on screen row `py`.
    pub open spec fn row_at(self, py: int) -> int {
        (py - self.y) % (SCREEN_HEIGHT as int)
    }

    /// Whether the sprite has a set pixel at framebuffer index `p`.
    pub open spec fn covers(self, p: int) -> bool {
        let col = self.col_at(p % (SCREEN_WIDTH as int));
        let row = self.row_at(p / (SCREEN_WIDTH as int));
        col < 8 && row < self.rows.len() && row_bit(self.rows[row], col as u8)
    }

    /// The framebuffer after the sprite was drawn over `video`: every pixel the
    /// sprite covers is flipped, every other pixel is kept.
    pub open spec fn drawn(self, video: Seq<bool>) -> Seq<bool> {
        Seq::new(video.len(), |p: int| video[p] != self.covers(p))
    }

    /// Whether drawing the sprite over `video` clears a pixel that was set.
    pub open spec fn collides(self, video: Seq<bool>) -> bool {
        exists|p: int| 0 <= p < video.len() && video[p] && self.covers(p)
    }
}

/// The sprite that a draw instruction with operands `x`, `y`, `n` places: `n`
/// rows read at the index register, at the position that registers `x` and
/// `y` hold before the instruction.
pub open spec fn sprite_of(c: CoreState, ram: Seq<u8>, x: u8, y: u8, n: u8) -> Sprite {
    Sprite {
        rows: Seq::new(n as nat, |r: int| ram[c.i + r]),
        x: c.v[x as int] as int,
        y: c.v[y as int] as int,
    }
}

/// DRAW: the sprite is drawn over the screen and the flag register tells
/// whether that cleared a pixel; rows past the end of RAM are a fault.
pub open spec fn draw_spec(c: CoreState, m: MemoryState, x: u8, y: u8, n: u8) -> Result<
    MachineState,
    Fault,
> {
    if !in_ram(c.i as int, n as int) {
        Err(Fault::OutOfBounds)
    } else {
        let sprite = sprite_of(c, m.ram, x, y, n);
        Ok(
            MachineState {
                cpu: c.with_flag(sprite.collides(m.video)),
                mem: MemoryState { video: sprite.drawn(m.video), ..m },
            },
        )
    }
}

// ---------------------------------------------------------------------------
// Dispatch
// ---------------------------------------------------------------------------
/// A result on the processor alone, as one on the machine `s` it belongs to.
pub open spec fn on_core(s: MachineState, r: Result<CoreState, Fault>) -> Result<
    MachineState,
    Fault,
> {
    match r {
        Ok(c) => Ok(MachineState { cpu: c, mem: s.mem }),
        Err(f) => Err(f),
    }
}

/// A result on memory alone, as one on the machine `s` it belongs to.
pub open spec fn on_memory(s: MachineState, r: Result<MemoryState, Fault>) -> Result<
    MachineState,
    Fault,
> {
    match r {
        Ok(m) => Ok(MachineState { cpu: s.cpu, mem: m }),
        Err(f) => Err(f),
    }
}

/// Whether `op` is the instruction that asks for a random byte.
pub open spec fn wants_random(op: Opcode) -> bool {
    op.spec_group() == 0xC
}

/// Whether the program counter has room for what an instruction may do to
/// it: a fetch has moved it on by two, and a skip may do so once more.
pub open spec fn can_step(c: CoreState) -> bool {
    2 <= c.pc <= u16::MAX - 2
}

/// What executing `op` makes of the machine `s`, where `random` is the byte
/// that the generator hands out if `op` asks for one. The instruction is
/// selected by the top nibble and, where a family has several forms, by the
/// low nibble or the low byte; every other word is unknown.
pub open spec fn step(s: MachineState, op: Opcode, random: u8) -> Result<MachineState, Fault> {
    let c = s.cpu;
    let m = s.mem;
    let g = op.spec_group();
    let x = op.spec_x();
    let y = op.spec_y();
    let n = op.spec_n();
    let nn = op.spec_nn();
    let nnn = op.spec_nnn();
    if g == 0x0 {
        if nn == 0xE0 {
            on_memory(s, Ok(clr_spec(m)))
        } else if nn == 0xEE {
            on_core(s, rts_spec(c))
        } else {
            Err(Fault::UnknownInstruction)
        }
    } else if g == 0x1 {
        on_core(s, Ok(jump_spec(c, nnn)))
    } else if g == 0x2 {
        on_core(s, call_spec(c, nnn))
    } else if g == 0x3 {
        on_core(s, Ok(ske_spec(c, x, nn)))
    } else if g == 0x4 {
        on_core(s, Ok(skne_spec(c, x, nn)))
    } else if g == 0x5 {
        if n == 0 {
            on_core(s, Ok(skre_spec(c, x, y)))
        } else {
            Err(Fault::UnknownInstruction)
        }
    } else if g == 0x6 {
        on_core(s, Ok(load_spec(c, x, nn)))
    } else if g == 0x7 {
        on_core(s, Ok(add_spec(c, x, nn)))
    } else if g == 0x8 {
        if n == 0x0 {
            on_core(s, Ok(mov_spec(c, x, y)))
        } else if n == 0x1 {
            on_core(s, Ok(or_spec(c, x, y)))
        } else if n == 0x2 {
            on_core(s, Ok(and_spec(c, x, y)))
        } else if n == 0x3 {
            on_core(s, Ok(xor_spec(c, x, y)))
        } else if n == 0x4 {
            on_core(s, Ok(addr_spec(c, x, y)))
        } else if n == 0x5 {
            on_core(s, Ok(sub_spec(c, x, y)))
        } else if n == 0x6 {
            on_core(s, Ok(shr_spec(c, x)))
        } else if n == 0x7 {
            on_core(s, Ok(subn_spec(c, x, y)))
        } else if n == 0xE {
            on_core(s, Ok(shl_spec(c, x)))
        } else {
            Err(Fault::UnknownInstruction)
        }
    } else if g == 0x9 {
        if n == 0 {
            on_core(s, Ok(skrne_spec(c, x, y)))
        } else {
            Err(Fault::UnknownInstruction)
        }
    } else if g == 0xA {
        on_core(s, Ok(loadi_spec(c, nnn)))
    } else if g == 0xB {
        on_core(s, Ok(jumpi_spec(c, nnn)))
    } else if g == 0xC {
        on_core(s, Ok(rand_spec(c, x, nn, random)))
    } else if g == 0xD {
        draw_spec(c, m, x, y, n)
    } else if g == 0xE {
        if nn == 0x9E {
            on_core(s, skp_spec(c, m.keys, x))
        } else if nn == 0xA1 {
            on_core(s, sknp_spec(c, m.keys, x))
        } else {
            Err(Fault::UnknownInstruction)
        }
    } else {
        if nn == 0x07 {
            on_core(s, Ok(moved_spec(c, x)))
        } else if nn == 0x0A {
            on_core(s, Ok(keyd_spec(c, m.keys, x)))
        } else if nn == 0x15 {
            on_core(s, Ok(loadd_spec(c, x)))
        } else if nn == 0x18 {
            on_core(s, Ok(loads_spec(c, x)))
        } else if nn == 0x1E {
            on_core(s, addi_spec(c, x))
        } else if nn == 0x29 {
            on_core(s, Ok(ldspr_spec(c, x)))
        } else if nn == 0x33 {
            on_memory(s, bcd_spec(c, m, x))
        } else if nn == 0x55 {
            on_memory(s, stor_spec(c, m, x))
        } else if nn == 0x65 {
            on_core(s, read_spec(c, m.ram, x))
        } else {
            Err(Fault::UnknownInstruction)
        }
    }
}

/// Where a run of cycles ended and, if a fault ended it, which.
pub struct Outcome {
    pub state: MachineState,
    pub fault: Option<Fault>,
}

/// One cycle: a fetch, then the fetched instruction executed. A fault while
/// fetching leaves the machine as it was; a fault while executing leaves it
/// as the fetch made it.
pub open spec fn cycle(s: MachineState, random: u8) -> Outcome {
    match fetch_spec(s.cpu, s.mem.ram) {
        Err(f) => Outcome { state: s, fault: Some(f) },
        Ok(c) => {
            let fetched = MachineState { cpu: c, mem: s.mem };
            match step(fetched, c.current, random) {
                Err(f) => Outcome { state: fetched, fault: Some(f) },
                Ok(next) => Outcome { state: next, fault: None },
            }
        },
    }
}

/// One cycle for each byte of `randoms`, in order, each cycle being handed its
/// byte; the run ends at the first fault.
pub open spec fn run_spec(s: MachineState, randoms: Seq<u8>) -> Outcome
    decreases randoms.len(),
{
    if randoms.len() == 0 {
        Outcome { state: s, fault: None }
    } else {
        let earlier = run_spec(s, randoms.drop_last());
        if earlier.fault.is_some() {
            earlier
        } else {
            cycle(earlier.state, randoms.last())
        }
    }
}

/// Whether a fallible operation on the processor ended as `expected`: on
/// success in the expected state, on a fault with that fault and unchanged.
pub open spec fn core_outcome(
    r: Result<(), Fault>,
    before: CoreState,
    after: CoreState,
    expected: Result<CoreState, Fault>,
) -> bool {
    match expected {
        Ok(c) => r.is_ok() && after == c,
        Err(f) => r == Err::<(), Fault>(f) && after == before,
    }
}

/// Whether a fallible operation on memory ended as `expected`: on success in
/// the expected state, on a fault with that fault and unchanged.
pub open spec fn memory_outcome(
    r: Result<(), Fault>,
    before: MemoryState,
    after: MemoryState,
    expected: Result<MemoryState, Fault>,
) -> bool {
    match expected {
        Ok(m) => r.is_ok() && after == m,
        Err(f) => r == Err::<(), Fault>(f) && after == before,
    }
}

/// Whether a fallible operation on the machine ended as `expected`: on success
/// in the expected state, on a fault with that fault and unchanged.
pub open spec fn machine_outcome(
    r: Result<(), Fault>,
    before: MachineState,
    after: MachineState,
    expected: Result<MachineState, Fault>,
) -> bool {
    match expected {
        Ok(s) => r.is_ok() && after == s,
        Err(f) => r == Err::<(), Fault>(f) && after == before,
    }
}

/// Whether the cycle that is handed byte `k` of `randoms` asks for a random
/// byte: the run has not faulted before it and it fetches a RAND.
pub open spec fn asks_random(s: MachineState, randoms: Seq<u8>, k: int) -> bool {
    let before = run_spec(s, randoms.subrange(0, k));
    before.fault.is_none() && match fetch_spec(before.state.cpu, before.state.mem.ram) {
        Ok(fetched) => wants_random(fetched.current),
        Err(_) => false,
    }
}

/// Whether zero stands in `randoms` for every cycle that asks for no byte.
pub open spec fn unasked_are_zero(s: MachineState, randoms: Seq<u8>) -> bool {
    forall|k: int|
        0 <= k < randoms.len() ==> #[trigger] asks_random(s, randoms, k) || randoms[k] == 0
}

/// Whether a run ended as `outcome`: in its state, and with its fault if it
/// has one.
pub open spec fn run_outcome(r: Result<(), Fault>, after: MachineState, outcome: Outcome) -> bool {
    after == outcome.state && match outcome.fault {
        Some(f) => r == Err::<(), Fault>(f),
        None => r.is_ok(),
    }
}

/// A run that a fault has ended stays as it is, whatever cycles are asked of
/// it afterwards.
pub proof fn lemma_run_stays_faulted(s: MachineState, randoms: Seq<u8>, more: Seq<u8>)
    requires
        run_spec(s, randoms).fault.is_some(),
    ensures
        run_spec(s, randoms + more) == run_spec(s, randoms),
    decreases more.len(),
{
    if more.len() == 0 {
        assert(randoms + more =~= randoms);
    } else {
        lemma_run_stays_faulted(s, randoms, more.drop_last());
        assert((randoms + more).drop_last() =~= randoms + more.drop_last());
    }
}

} // verus!
