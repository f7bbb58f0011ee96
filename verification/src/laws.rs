//! What holds of the instructions whatever the state they meet, proved from
//! the model that their contracts are stated over.

use vstd::prelude::*;
use crate::fault::Fault;
use crate::memory::MemoryState;
use crate::model::{
    add_spec, addr_spec, bcd_spec, call_spec, cycle, decimal_digits, draw_spec, fetch_spec,
    in_ram, is_lowest_pressed, load_spec, lowest_pressed, read_spec, rts_spec, run_spec,
    rand_spec, shl_spec, shr_spec, sprite_of, step, stor_spec, sub_spec, subn_spec, tick_spec,
    wants_random, CoreState, MachineState, Sprite, FLAG,
};
use crate::opcode::Opcode;
use crate::stack::STACK_DEPTH;

verus! {

/// Loading `first` into a register and then adding `second` to it leaves the
/// register holding their sum modulo 256.
pub proof fn law_load_then_add(c: CoreState, x: u8, first: u8, second: u8)
    requires
        c.wf(),
        x < 16,
    ensures
        add_spec(load_spec(c, x, first), x, second).v[x as int] == (first + second) % 256,
{
}

/// After ADDR the flag register holds 1 if the sum of the two operands is over
/// 255 and 0 if not. After SUB and SUBN it holds 1 if the minuend is at least
/// the subtrahend, that is if no borrow occurred, and 0 if not.
pub proof fn law_carry_and_borrow(c: CoreState, x: u8, y: u8)
    requires
        c.wf(),
        x < 16,
        y < 16,
    ensures
        addr_spec(c, x, y).v[FLAG as int] == (if c.v[x as int] + c.v[y as int] > 255 {
            1u8
        } else {
            0u8
        }),
        sub_spec(c, x, y).v[FLAG as int] == (if c.v[x as int] >= c.v[y as int] {
            1u8
        } else {
            0u8
        }),
        subn_spec(c, x, y).v[FLAG as int] == (if c.v[y as int] >= c.v[x as int] {
            1u8
        } else {
            0u8
        }),
{
}

/// ADDR, SUB and SUBN on a register other than the flag register leave in it
/// the sum or the difference modulo 256.
pub proof fn law_wrapping_results(c: CoreState, x: u8, y: u8)
    requires
        c.wf(),
        x < 15,
        y < 16,
    ensures
        addr_spec(c, x, y).v[x as int] == (c.v[x as int] + c.v[y as int]) % 256,
        sub_spec(c, x, y).v[x as int] == (c.v[x as int] - c.v[y as int]) % 256,
        subn_spec(c, x, y).v[x as int] == (c.v[y as int] - c.v[x as int]) % 256,
{
}

/// SHR leaves in the flag register the low bit that the shifted register had,
/// SHL the high bit, and the register holds its former value shifted by one
/// bit. Where the register shifted is the flag register itself, the two
/// claims are about one register and the shift comes last: they then hold
/// only of a flag register that held zero.
pub proof fn law_shifts(c: CoreState, x: u8)
    requires
        c.wf(),
        x < 16,
        x == FLAG ==> c.v[FLAG as int] == 0,
    ensures
        shr_spec(c, x).v[FLAG as int] == c.v[x as int] & 1,
        shr_spec(c, x).v[x as int] == c.v[x as int] >> 1,
        shl_spec(c, x).v[FLAG as int] == (c.v[x as int] >> 7) & 1,
        shl_spec(c, x).v[x as int] == c.v[x as int] << 1,
{
    let b: u8 = c.v[x as int];
    assert(b & 1 == b % 2) by (bit_vector);
    assert(b >> 1 == b / 2) by (bit_vector);
    assert(((b >> 7) & 1 == 1) <==> b >= 128) by (bit_vector);
    assert((b >> 7) & 1 == 0 || (b >> 7) & 1 == 1) by (bit_vector);
    assert(b << 1 == (b as u16 * 2) % 256) by (bit_vector);
    assert(0u8 & 1 == 0 && 0u8 >> 1 == 0 && (0u8 >> 7) & 1 == 0 && 0u8 << 1 == 0)
        by (bit_vector);
}

/// A CALL succeeds exactly when fewer than sixteen return addresses are
/// pending and is a stack overflow otherwise; an RTS succeeds exactly when
/// one is pending and is a stack underflow otherwise.
pub proof fn law_stack_bounds(c: CoreState, nnn: u16)
    requires
        c.wf(),
    ensures
        c.stack.len() < STACK_DEPTH ==> call_spec(c, nnn).is_ok(),
        c.stack.len() == STACK_DEPTH ==> call_spec(c, nnn) == Err::<CoreState, Fault>(
            Fault::StackOverflow,
        ),
        c.stack.len() > 0 ==> rts_spec(c).is_ok(),
        c.stack.len() == 0 ==> rts_spec(c) == Err::<CoreState, Fault>(Fault::StackUnderflow),
{
}

/// A CALL followed at once by an RTS puts the processor back where it was
/// when the CALL was executed: the program counter at the instruction after
/// the CALL, and the stack as before.
pub proof fn law_call_then_rts(c: CoreState, nnn: u16)
    requires
        c.wf(),
        c.stack.len() < STACK_DEPTH,
    ensures
        call_spec(c, nnn).is_ok(),
        rts_spec(call_spec(c, nnn).unwrap()) == Ok::<CoreState, Fault>(c),
{
    let called = call_spec(c, nnn).unwrap();
    assert(called.stack.drop_last() =~= c.stack);
}

/// CALLs made one inside the other, to each of `targets` in turn.
pub open spec fn nested_calls(c: CoreState, targets: Seq<u16>) -> Result<CoreState, Fault>
    decreases targets.len(),
{
    if targets.len() == 0 {
        Ok(c)
    } else {
        match nested_calls(c, targets.drop_last()) {
            Ok(inner) => call_spec(inner, targets.last()),
            Err(f) => Err(f),
        }
    }
}

/// From an empty stack, up to sixteen nested CALLs succeed, each adding one
/// return address, and one more is a stack overflow.
pub proof fn law_sixteen_calls(c: CoreState, targets: Seq<u16>)
    requires
        c.wf(),
        c.stack.len() == 0,
        targets.len() <= STACK_DEPTH + 1,
    ensures
        targets.len() <= STACK_DEPTH ==> nested_calls(c, targets).is_ok() && nested_calls(
            c,
            targets,
        ).unwrap().stack.len() == targets.len(),
        targets.len() == STACK_DEPTH + 1 ==> nested_calls(c, targets) == Err::<CoreState, Fault>(
            Fault::StackOverflow,
        ),
    decreases targets.len(),
{
    if targets.len() > 0 {
        law_sixteen_calls(c, targets.drop_last());
    }
}

/// Drawing a sprite twice at the same place gives back the framebuffer as it
/// was before the first draw.
pub proof fn law_draw_twice(sprite: Sprite, video: Seq<bool>)
    ensures
        sprite.drawn(sprite.drawn(video)) == video,
{
    assert(sprite.drawn(sprite.drawn(video)) =~= video);
}

/// Where the first draw of a sprite set a pixel, a second draw at the same
/// place clears it again and so reports a collision.
pub proof fn law_second_draw_collides(sprite: Sprite, video: Seq<bool>, p: int)
    requires
        0 <= p < video.len(),
        sprite.covers(p),
        !video[p],
    ensures
        sprite.drawn(video)[p],
        sprite.collides(sprite.drawn(video)),
        !sprite.drawn(sprite.drawn(video))[p],
{
}

/// Whether two sprites are the same rows at the same place on the screen.
pub open spec fn same_sprite(a: Sprite, b: Sprite) -> bool {
    a.rows == b.rows && a.x % 64 == b.x % 64 && a.y % 32 == b.y % 32
}

/// The DRAW instruction executed twice gives back the memory it met, where
/// the second draw places the same sprite at the same location as the first.
/// It always does unless an operand is the flag register, which the first
/// draw may have changed.
pub proof fn law_draw_instruction_twice(c: CoreState, m: MemoryState, x: u8, y: u8, n: u8)
    requires
        c.wf(),
        m.wf(),
        x < 16,
        y < 16,
        n < 16,
        in_ram(c.i as int, n as int),
        ({
            let once = draw_spec(c, m, x, y, n).unwrap();
            same_sprite(sprite_of(once.cpu, once.mem.ram, x, y, n), sprite_of(c, m.ram, x, y, n))
        }),
    ensures
        draw_spec(c, m, x, y, n).is_ok(),
        ({
            let once = draw_spec(c, m, x, y, n).unwrap();
            draw_spec(once.cpu, once.mem, x, y, n).is_ok() && draw_spec(
                once.cpu,
                once.mem,
                x,
                y,
                n,
            ).unwrap().mem == m
        }),
{
    let once = draw_spec(c, m, x, y, n).unwrap();
    let first = sprite_of(c, m.ram, x, y, n);
    let second = sprite_of(once.cpu, once.mem.ram, x, y, n);
    assert forall|p: int| 0 <= p < 2048 implies second.covers(p) == first.covers(p) by {
        assert(second.col_at(p % 64) == first.col_at(p % 64));
        assert(second.row_at(p / 64) == first.row_at(p / 64));
    }
    assert(second.drawn(first.drawn(m.video)) =~= m.video);
}

/// With operands other than the flag register, the second of two DRAW
/// instructions places the same sprite at the same location as the first.
pub proof fn law_draw_keeps_its_place(c: CoreState, m: MemoryState, x: u8, y: u8, n: u8)
    requires
        c.wf(),
        m.wf(),
        x < 15,
        y < 15,
        n < 16,
        in_ram(c.i as int, n as int),
    ensures
        ({
            let once = draw_spec(c, m, x, y, n).unwrap();
            same_sprite(sprite_of(once.cpu, once.mem.ram, x, y, n), sprite_of(c, m.ram, x, y, n))
        }),
{
    let once = draw_spec(c, m, x, y, n).unwrap();
    assert(sprite_of(once.cpu, once.mem.ram, x, y, n).rows =~= sprite_of(c, m.ram, x, y, n).rows);
}

/// The three decimal digits of a byte are each under ten and give the byte
/// back as `100 * hundreds + 10 * tens + units`.
pub proof fn law_decimal_digits(b: u8)
    ensures
        decimal_digits(b).len() == 3,
        decimal_digits(b)[0] < 10,
        decimal_digits(b)[1] < 10,
        decimal_digits(b)[2] < 10,
        100 * decimal_digits(b)[0] + 10 * decimal_digits(b)[1] + decimal_digits(b)[2] == b,
{
}

/// After BCD the three bytes at the index register, read as hundreds, tens
/// and units, give back the register's value, and no other byte of memory
/// has changed.
pub proof fn law_bcd_round_trip(c: CoreState, m: MemoryState, x: u8)
    requires
        c.wf(),
        m.wf(),
        x < 16,
        in_ram(c.i as int, 3),
    ensures
        bcd_spec(c, m, x).is_ok(),
        ({
            let ram = bcd_spec(c, m, x).unwrap().ram;
            &&& 100 * ram[c.i as int] + 10 * ram[c.i + 1] + ram[c.i + 2] == c.v[x as int]
            &&& forall|a: int| 0 <= a < ram.len() && !(c.i <= a < c.i + 3) ==> ram[a] == m.ram[a]
        }),
{
    law_decimal_digits(c.v[x as int]);
}

/// STOR with operand `x` writes the `x` registers below `x` to the `x` bytes
/// at the index register and not one byte more: the byte that register `x`
/// itself would go to is left alone.
pub proof fn law_stor_bounds(c: CoreState, m: MemoryState, x: u8)
    requires
        c.wf(),
        m.wf(),
        x < 16,
        in_ram(c.i as int, x as int),
    ensures
        stor_spec(c, m, x).is_ok(),
        ({
            let ram = stor_spec(c, m, x).unwrap().ram;
            &&& ram.len() == m.ram.len()
            &&& forall|r: int| 0 <= r < x ==> ram[c.i + r] == c.v[r]
            &&& forall|a: int| 0 <= a < ram.len() && !(c.i <= a < c.i + x) ==> ram[a] == m.ram[a]
            &&& c.i + x < ram.len() ==> ram[c.i + x] == m.ram[c.i + x]
        }),
{
}

/// READ with operand `x` fills the `x + 1` registers up to and including `x`
/// from the `x + 1` bytes at the index register, and leaves the registers
/// above `x` alone.
pub proof fn law_read_bounds(c: CoreState, m: MemoryState, x: u8)
    requires
        c.wf(),
        m.wf(),
        x < 16,
        in_ram(c.i as int, x + 1),
    ensures
        read_spec(c, m.ram, x).is_ok(),
        ({
            let v = read_spec(c, m.ram, x).unwrap().v;
            &&& v.len() == 16
            &&& forall|r: int| 0 <= r <= x ==> v[r] == m.ram[c.i + r]
            &&& forall|r: int| x < r < 16 ==> v[r] == c.v[r]
        }),
{
}

/// What STOR with operand `x` has written, READ with operand `x - 1` reads
/// back into the same registers.
pub proof fn law_stor_then_read(c: CoreState, m: MemoryState, x: u8)
    requires
        c.wf(),
        m.wf(),
        0 < x < 16,
        in_ram(c.i as int, x as int),
    ensures
        read_spec(c, stor_spec(c, m, x).unwrap().ram, (x - 1) as u8) == Ok::<CoreState, Fault>(c),
{
    let stored = stor_spec(c, m, x).unwrap().ram;
    assert(read_spec(c, stored, (x - 1) as u8).unwrap().v =~= c.v);
}

/// A machine whose program counter stands on a jump to that same address
/// runs for any number of cycles without a fault, and each cycle leaves it
/// where it was.
pub proof fn law_self_jump_never_faults(s: MachineState, randoms: Seq<u8>)
    requires
        s.cpu.wf(),
        s.mem.wf(),
        s.cpu.pc < 4095,
        Opcode((s.mem.ram[s.cpu.pc as int] * 256 + s.mem.ram[s.cpu.pc + 1]) as u16) == Opcode(
            (0x1000 + s.cpu.pc) as u16,
        ),
    ensures
        run_spec(s, randoms).fault.is_none(),
        run_spec(s, randoms).state.mem == s.mem,
        run_spec(s, randoms).state.cpu.pc == s.cpu.pc,
    decreases randoms.len(),
{
    if randoms.len() > 0 {
        law_self_jump_never_faults(s, randoms.drop_last());
        let op = Opcode((0x1000 + s.cpu.pc) as u16);
        assert(op.spec_group() == 1);
        assert(op.spec_nnn() == s.cpu.pc);
    }
}

/// A cycle that meets KEYD while no key is pressed changes nothing but the
/// record of the instruction fetched last: the program counter is back on the
/// KEYD, which the next cycle fetches again.
pub proof fn law_keyd_waits(s: MachineState, random: u8)
    requires
        s.cpu.wf(),
        s.mem.wf(),
        s.cpu.pc + 2 <= 4096,
        s.mem.ram[s.cpu.pc as int] / 16 == 0xF,
        s.mem.ram[s.cpu.pc + 1] == 0x0A,
        forall|k: int| 0 <= k < 16 ==> !s.mem.keys[k],
    ensures
        cycle(s, random).fault.is_none(),
        cycle(s, random).state.mem == s.mem,
        cycle(s, random).state.cpu == (CoreState {
            current: cycle(s, random).state.cpu.current,
            ..s.cpu
        }),
{
    assert(forall|k: int| !is_lowest_pressed(s.mem.keys, k));
    assert(lowest_pressed(s.mem.keys).is_none());
    let op = Opcode((s.mem.ram[s.cpu.pc as int] * 256 + s.mem.ram[s.cpu.pc + 1]) as u16);
    assert(op.spec_group() == 0xF);
    assert(op.spec_nn() == 0x0A);
}

/// With a key pressed, KEYD puts into its register the index of a pressed key
/// below which no key is pressed.
pub proof fn law_keyd_takes_lowest(keys: Seq<bool>, k: int)
    requires
        is_lowest_pressed(keys, k),
    ensures
        lowest_pressed(keys) == Some(k),
{
    let chosen = choose|j: int| is_lowest_pressed(keys, j);
    if chosen < k {
        assert(!keys[chosen]);
    } else if k < chosen {
        assert(!keys[k]);
    }
}

/// An instruction that completes leaves a machine of the right shape: sixteen
/// registers, at most sixteen pending return addresses, and memory, screen
/// and keypad of their fixed sizes.
pub proof fn law_step_keeps_shape(s: MachineState, op: Opcode, random: u8)
    requires
        s.cpu.wf(),
        s.mem.wf(),
        step(s, op, random).is_ok(),
    ensures
        step(s, op, random).unwrap().cpu.wf(),
        step(s, op, random).unwrap().mem.wf(),
{
}

/// No instruction writes the key state: the processor only reads it.
pub proof fn law_step_leaves_keys(s: MachineState, op: Opcode, random: u8)
    requires
        step(s, op, random).is_ok(),
    ensures
        step(s, op, random).unwrap().mem.keys == s.mem.keys,
{
}

/// Whether `op` is one of the two instructions that load a timer from a
/// register.
pub open spec fn loads_timer(op: Opcode) -> bool {
    op.spec_group() == 0xF && (op.spec_nn() == 0x15 || op.spec_nn() == 0x18)
}

/// The timers change in two ways only: an instruction that loads one from a
/// register, and the tick, which lowers each by at most one and never below
/// zero. A fetch and every other instruction leave them as they are.
pub proof fn law_timers(s: MachineState, op: Opcode, random: u8)
    requires
        s.cpu.wf(),
    ensures
        step(s, op, random).is_ok() && !loads_timer(op) ==> step(s, op, random).unwrap().cpu.dt
            == s.cpu.dt && step(s, op, random).unwrap().cpu.st == s.cpu.st,
        fetch_spec(s.cpu, s.mem.ram).is_ok() ==> fetch_spec(s.cpu, s.mem.ram).unwrap().dt
            == s.cpu.dt && fetch_spec(s.cpu, s.mem.ram).unwrap().st == s.cpu.st,
        s.cpu.dt - 1 <= tick_spec(s.cpu).dt <= s.cpu.dt,
        s.cpu.st - 1 <= tick_spec(s.cpu).st <= s.cpu.st,
        s.cpu.dt > 0 ==> tick_spec(s.cpu).dt == s.cpu.dt - 1,
        s.cpu.st > 0 ==> tick_spec(s.cpu).st == s.cpu.st - 1,
{
}

/// The random byte matters to RAND alone: every other instruction does the
/// same whatever byte it is handed.
pub proof fn law_random_matters_to_rand_only(s: MachineState, op: Opcode, a: u8, b: u8)
    requires
        !wants_random(op),
    ensures
        step(s, op, a) == step(s, op, b),
{
}

/// What RAND leaves in its register has no bit set that the mask `nn` lacks.
pub proof fn law_rand_stays_under_mask(c: CoreState, x: u8, nn: u8, random: u8)
    requires
        c.wf(),
        x < 16,
    ensures
        rand_spec(c, x, nn, random).v[x as int] & !nn == 0,
        rand_spec(c, x, nn, random).v[x as int] <= nn,
{
    assert((nn & random) & !nn == 0) by (bit_vector);
    assert((nn & random) <= nn) by (bit_vector);
}

} // verus!
