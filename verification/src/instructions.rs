//! The instructions, one function each, and the dispatcher that selects among
//! them.

use vstd::prelude::*;
use crate::fault::Fault;
use crate::memory::Memory;
use crate::model::{
    add_spec, addi_spec, addr_spec, and_spec, bcd_spec, call_spec, can_step, clr_spec,
    core_outcome, draw_spec, is_lowest_pressed, jump_spec, jumpi_spec, keyd_spec, ldspr_spec,
    load_spec, loadd_spec, loadi_spec, loads_spec, machine_outcome, memory_outcome, mov_spec,
    moved_spec, or_spec, rand_spec, read_spec, rts_spec, shl_spec, shr_spec, ske_spec, skne_spec,
    row_bit, sknp_spec, skp_spec, skre_spec, skrne_spec, sprite_of, step, stor_spec, sub_spec,
    subn_spec, xor_spec, MachineState, Sprite,
};
use crate::opcode::Opcode;
use crate::processor::Core;

verus! {

/// CLR: blanks the screen.
pub fn clr(mem: &mut Memory)
    ensures
        final(mem)@ == clr_spec(old(mem)@),
{
    mem.clear_video();
}

/// RTS: returns to the address on top of the stack. With nothing pending
/// this is a stack underflow.
pub fn rts(cpu: &mut Core) -> (r: Result<(), Fault>)
    ensures
        core_outcome(r, old(cpu)@, final(cpu)@, rts_spec(old(cpu)@)),
{
    match cpu.stack.pop() {
        Ok(addr) => {
            cpu.pc = addr;
            Ok(())
        },
        Err(_) => Err(Fault::StackUnderflow),
    }
}

/// JUMP: continues at `nnn`.
pub fn jump(cpu: &mut Core, nnn: u16)
    ensures
        final(cpu)@ == jump_spec(old(cpu)@, nnn),
{
    cpu.pc = nnn;
}

/// CALL: remembers the program counter and continues at `nnn`. With sixteen
/// addresses pending this is a stack overflow.
pub fn call(cpu: &mut Core, nnn: u16) -> (r: Result<(), Fault>)
    ensures
        core_outcome(r, old(cpu)@, final(cpu)@, call_spec(old(cpu)@, nnn)),
{
    let pc: u16 = cpu.pc;
    match cpu.stack.push(pc) {
        Ok(_) => {
            cpu.pc = nnn;
            Ok(())
        },
        Err(_) => Err(Fault::StackOverflow),
    }
}

/// SKE: skips the next instruction if register `x` holds `nn`.
pub fn ske(cpu: &mut Core, x: u8, nn: u8)
    requires
        x < 16,
        old(cpu).pc <= u16::MAX - 2,
    ensures
        final(cpu)@ == ske_spec(old(cpu)@, x, nn),
{
    if cpu.v[x as usize] == nn {
        cpu.pc += 2;
    }
}

/// SKNE: skips the next instruction unless register `x` holds `nn`.
pub fn skne(cpu: &mut Core, x: u8, nn: u8)
    requires
        x < 16,
        old(cpu).pc <= u16::MAX - 2,
    ensures
        final(cpu)@ == skne_spec(old(cpu)@, x, nn),
{
    if cpu.v[x as usize] != nn {
        cpu.pc += 2;
    }
}

/// SKRE: skips the next instruction if registers `x` and `y` are equal.
pub fn skre(cpu: &mut Core, x: u8, y: u8)
    requires
        x < 16,
        y < 16,
        old(cpu).pc <= u16::MAX - 2,
    ensures
        final(cpu)@ == skre_spec(old(cpu)@, x, y),
{
    if cpu.v[x as usize] == cpu.v[y as usize] {
        cpu.pc += 2;
    }
}

/// SKRNE: skips the next instruction if registers `x` and `y` differ.
pub fn skrne(cpu: &mut Core, x: u8, y: u8)
    requires
        x < 16,
        y < 16,
        old(cpu).pc <= u16::MAX - 2,
    ensures
        final(cpu)@ == skrne_spec(old(cpu)@, x, y),
{
    if cpu.v[x as usize] != cpu.v[y as usize] {
        cpu.pc += 2;
    }
}

/// SKP: skips the next instruction if the key that register `x` names is
/// pressed. A register that names no key of the keypad is a fault.
pub fn skp(cpu: &mut Core, mem: &Memory, x: u8) -> (r: Result<(), Fault>)
    requires
        x < 16,
        old(cpu).pc <= u16::MAX - 2,
    ensures
        core_outcome(r, old(cpu)@, final(cpu)@, skp_spec(old(cpu)@, mem@.keys, x)),
{
    let key: usize = cpu.v[x as usize] as usize;
    if key >= 16 {
        return Err(Fault::OutOfBounds);
    }
    if mem.keys[key] {
        cpu.pc += 2;
    }
    Ok(())
}

/// SKNP: skips the next instruction unless the key that register `x` names
/// is pressed. A register that names no key of the keypad is a fault.
pub fn sknp(cpu: &mut Core, mem: &Memory, x: u8) -> (r: Result<(), Fault>)
    requires
        x < 16,
        old(cpu).pc <= u16::MAX - 2,
    ensures
        core_outcome(r, old(cpu)@, final(cpu)@, sknp_spec(old(cpu)@, mem@.keys, x)),
{
    let key: usize = cpu.v[x as usize] as usize;
    if key >= 16 {
        return Err(Fault::OutOfBounds);
    }
    if !mem.keys[key] {
        cpu.pc += 2;
    }
    Ok(())
}

/// LOAD: register `x` takes the value `nn`.
pub fn load(cpu: &mut Core, x: u8, nn: u8)
    requires
        x < 16,
    ensures
        final(cpu)@ == load_spec(old(cpu)@, x, nn),
{
    cpu.v[x as usize] = nn;
}

/// LOADI: the index register takes the value `nnn`.
pub fn loadi(cpu: &mut Core, nnn: u16)
    ensures
        final(cpu)@ == loadi_spec(old(cpu)@, nnn),
{
    cpu.i = nnn;
}

/// JUMPI: continues at `nnn` plus what register 0 holds.
pub fn jumpi(cpu: &mut Core, nnn: u16)
    requires
        nnn < 4096,
    ensures
        final(cpu)@ == jumpi_spec(old(cpu)@, nnn),
{
    cpu.pc = cpu.v[0] as u16 + nnn;
}

/// RAND: register `x` takes `random` masked by `nn`, where `random` is the
/// byte that the generator handed out for this instruction.
pub fn rand(cpu: &mut Core, x: u8, nn: u8, random: u8)
    requires
        x < 16,
    ensures
        final(cpu)@ == rand_spec(old(cpu)@, x, nn, random),
{
    cpu.v[x as usize] = nn & random;
}

/// ADD: `nn` is added to register `x`, wrapping; no flag is touched.
pub fn add(cpu: &mut Core, x: u8, nn: u8)
    requires
        x < 16,
    ensures
        final(cpu)@ == add_spec(old(cpu)@, x, nn),
{
    cpu.v[x as usize] = cpu.v[x as usize].wrapping_add(nn);
}

/// MOVE: register `x` takes what register `y` holds.
pub fn mov(cpu: &mut Core, x: u8, y: u8)
    requires
        x < 16,
        y < 16,
    ensures
        final(cpu)@ == mov_spec(old(cpu)@, x, y),
{
    cpu.v[x as usize] = cpu.v[y as usize];
}

/// OR: register `x` takes the bitwise or of registers `x` and `y`.
pub fn or(cpu: &mut Core, x: u8, y: u8)
    requires
        x < 16,
        y < 16,
    ensures
        final(cpu)@ == or_spec(old(cpu)@, x, y),
{
    cpu.v[x as usize] = cpu.v[x as usize] | cpu.v[y as usize];
}

/// AND: register `x` takes the bitwise and of registers `x` and `y`.
pub fn and(cpu: &mut Core, x: u8, y: u8)
    requires
        x < 16,
        y < 16,
    ensures
        final(cpu)@ == and_spec(old(cpu)@, x, y),
{
    cpu.v[x as usize] = cpu.v[x as usize] & cpu.v[y as usize];
}

/// XOR: register `x` takes the bitwise exclusive or of registers `x` and `y`.
pub fn xor(cpu: &mut Core, x: u8, y: u8)
    requires
        x < 16,
        y < 16,
    ensures
        final(cpu)@ == xor_spec(old(cpu)@, x, y),
{
    cpu.v[x as usize] = cpu.v[x as usize] ^ cpu.v[y as usize];
}

/// ADDR: register `y` is added to register `x`, wrapping; the flag register
/// then tells whether the sum passed 255.
pub fn addr(cpu: &mut Core, x: u8, y: u8)
    requires
        x < 16,
        y < 16,
    ensures
        final(cpu)@ == addr_spec(old(cpu)@, x, y),
{
    let sum: u16 = cpu.v[x as usize] as u16 + cpu.v[y as usize] as u16;
    cpu.v[x as usize] = (sum % 256) as u8;
    cpu.v[0xF] = if sum > 255 { 1 } else { 0 };
}

/// SUB: register `y` is taken from register `x`, wrapping; the flag register
/// then tells whether no borrow was needed.
pub fn sub(cpu: &mut Core, x: u8, y: u8)
    requires
        x < 16,
        y < 16,
    ensures
        final(cpu)@ == sub_spec(old(cpu)@, x, y),
{
    let a: u8 = cpu.v[x as usize];
    let b: u8 = cpu.v[y as usize];
    cpu.v[x as usize] = a.wrapping_sub(b);
    cpu.v[0xF] = if a >= b { 1 } else { 0 };
}

/// SHR: the flag register takes the low bit of register `x`, which is then
/// shifted right by one. `y` is part of the encoding and is not read.
pub fn shr(cpu: &mut Core, x: u8, y: u8)
    requires
        x < 16,
    ensures
        final(cpu)@ == shr_spec(old(cpu)@, x),
{
    let before: u8 = cpu.v[x as usize];
    assert(before & 0x01 == before % 2) by (bit_vector);
    cpu.v[0xF] = before & 0x01;
    let flagged: u8 = cpu.v[x as usize];
    assert(flagged >> 1 == flagged / 2) by (bit_vector);
    cpu.v[x as usize] = flagged >> 1;
}

/// SUBN: register `x` is taken from register `y` and the difference, wrapping,
/// goes to register `x`; the flag register then tells whether no borrow was
/// needed.
pub fn subn(cpu: &mut Core, x: u8, y: u8)
    requires
        x < 16,
        y < 16,
    ensures
        final(cpu)@ == subn_spec(old(cpu)@, x, y),
{
    let a: u8 = cpu.v[y as usize];
    let b: u8 = cpu.v[x as usize];
    cpu.v[x as usize] = a.wrapping_sub(b);
    cpu.v[0xF] = if a >= b { 1 } else { 0 };
}

/// SHL: the flag register takes the high bit of register `x`, which is then
/// shifted left by one. `y` is part of the encoding and is not read.
pub fn shl(cpu: &mut Core, x: u8, y: u8)
    requires
        x < 16,
    ensures
        final(cpu)@ == shl_spec(old(cpu)@, x),
{
    let before: u8 = cpu.v[x as usize];
    assert(((before >> 7) & 0x01 == 1) <==> before >= 128) by (bit_vector);
    assert((before >> 7) & 0x01 == 0 || (before >> 7) & 0x01 == 1) by (bit_vector);
    cpu.v[0xF] = (before >> 7) & 0x01;
    let flagged: u8 = cpu.v[x as usize];
    assert(flagged << 1 == (flagged as u16 * 2) % 256) by (bit_vector);
    cpu.v[x as usize] = flagged << 1;
}

/// MOVED: register `x` takes the value of the delay timer.
pub fn moved(cpu: &mut Core, x: u8)
    requires
        x < 16,
    ensures
        final(cpu)@ == moved_spec(old(cpu)@, x),
{
    cpu.v[x as usize] = cpu.dt;
}

/// KEYD: waits for a key. With a key pressed, register `x` takes the lowest
/// index among the pressed keys; with none, the program counter steps back by
/// two, so that this instruction is fetched again.
pub fn keyd(cpu: &mut Core, mem: &Memory, x: u8)
    requires
        x < 16,
        old(cpu).pc >= 2,
    ensures
        final(cpu)@ == keyd_spec(old(cpu)@, mem@.keys, x),
{
    let mut k: usize = 0;
    while k < 16 && !mem.keys[k]
        invariant
            k <= 16,
            forall|j: int| 0 <= j < k ==> !mem.keys@[j],
        decreases 16 - k,
    {
        k += 1;
    }
    if k < 16 {
        proof {
            assert(is_lowest_pressed(mem@.keys, k as int));
            assert forall|other: int| is_lowest_pressed(mem@.keys, other) implies other == k by {
                if other < k {
                    assert(!mem.keys@[other]);
                } else if k < other {
                    assert(mem.keys@[k as int]);
                }
            }
        }
        cpu.v[x as usize] = k as u8;
    } else {
        assert(forall|other: int| !is_lowest_pressed(mem@.keys, other));
        cpu.pc -= 2;
    }
}

/// LOADD: the delay timer takes what register `x` holds.
pub fn loadd(cpu: &mut Core, x: u8)
    requires
        x < 16,
    ensures
        final(cpu)@ == loadd_spec(old(cpu)@, x),
{
    cpu.dt = cpu.v[x as usize];
}

/// LOADS: the sound timer takes what register `x` holds.
pub fn loads(cpu: &mut Core, x: u8)
    requires
        x < 16,
    ensures
        final(cpu)@ == loads_spec(old(cpu)@, x),
{
    cpu.st = cpu.v[x as usize];
}

/// ADDI: register `x` is added to the index register; no flag is touched. A
/// sum that sixteen bits cannot hold is a fault.
pub fn addi(cpu: &mut Core, x: u8) -> (r: Result<(), Fault>)
    requires
        x < 16,
    ensures
        core_outcome(r, old(cpu)@, final(cpu)@, addi_spec(old(cpu)@, x)),
{
    let vx: u16 = cpu.v[x as usize] as u16;
    if cpu.i > u16::MAX - vx {
        return Err(Fault::OutOfBounds);
    }
    cpu.i += vx;
    Ok(())
}

/// LDSPR: the index register takes the address of the glyph for the digit
/// that register `x` holds.
pub fn ldspr(cpu: &mut Core, x: u8)
    requires
        x < 16,
    ensures
        final(cpu)@ == ldspr_spec(old(cpu)@, x),
{
    cpu.i = (cpu.v[x as usize] as u16) * 5;
}

/// BCD: the hundreds, tens and units of register `x` go to the three bytes at
/// the index register. Bytes past the end of memory are a fault.
pub fn bcd(cpu: &Core, mem: &mut Memory, x: u8) -> (r: Result<(), Fault>)
    requires
        x < 16,
    ensures
        memory_outcome(r, old(mem)@, final(mem)@, bcd_spec(cpu@, old(mem)@, x)),
{
    let i: usize = cpu.i as usize;
    if i + 3 > 4096 {
        return Err(Fault::OutOfBounds);
    }
    let mut k: u8 = cpu.v[x as usize];
    mem.ram[i + 2] = k % 10;
    k /= 10;
    mem.ram[i + 1] = k % 10;
    k /= 10;
    mem.ram[i] = k % 10;
    assert(mem@.ram =~= bcd_spec(cpu@, old(mem)@, x).unwrap().ram);
    Ok(())
}

/// STOR: registers 0 up to but not including `x` go to memory at the index
/// register; register `x` itself is not stored. Bytes past the end of memory
/// are a fault, and then nothing is written.
pub fn stor(cpu: &Core, mem: &mut Memory, x: u8) -> (r: Result<(), Fault>)
    requires
        x < 16,
    ensures
        memory_outcome(r, old(mem)@, final(mem)@, stor_spec(cpu@, old(mem)@, x)),
{
    let i: usize = cpu.i as usize;
    if x > 0 && i + x as usize > 4096 {
        return Err(Fault::OutOfBounds);
    }
    let mut r: u8 = 0;
    while r < x
        invariant
            r <= x,
            x < 16,
            i == cpu.i,
            x == 0 || i + x <= 4096,
            mem.video == old(mem).video,
            mem.keys == old(mem).keys,
            forall|a: int| i <= a < i + r ==> mem.ram@[a] == cpu.v@[a - i],
            forall|a: int| 0 <= a < 4096 && !(i <= a < i + r) ==> mem.ram@[a] == old(mem).ram@[a],
        decreases x - r,
    {
        mem.ram[i + r as usize] = cpu.v[r as usize];
        r += 1;
    }
    assert(mem@.ram =~= stor_spec(cpu@, old(mem)@, x).unwrap().ram);
    Ok(())
}

/// READ: registers 0 up to and including `x` are filled from memory at the
/// index register. Bytes past the end of memory are a fault, and then no
/// register changes.
pub fn read(cpu: &mut Core, mem: &Memory, x: u8) -> (r: Result<(), Fault>)
    requires
        x < 16,
    ensures
        core_outcome(r, old(cpu)@, final(cpu)@, read_spec(old(cpu)@, mem@.ram, x)),
{
    let i: usize = cpu.i as usize;
    if i + x as usize + 1 > 4096 {
        return Err(Fault::OutOfBounds);
    }
    let mut r: u8 = 0;
    while r < x + 1
        invariant
            r <= x + 1,
            x < 16,
            i == old(cpu).i,
            i + x + 1 <= 4096,
            cpu.stack == old(cpu).stack,
            cpu.pc == old(cpu).pc,
            cpu.i == old(cpu).i,
            cpu.dt == old(cpu).dt,
            cpu.st == old(cpu).st,
            cpu.current == old(cpu).current,
            forall|q: int| 0 <= q < r ==> cpu.v@[q] == mem.ram@[i + q],
            forall|q: int| r <= q < 16 ==> cpu.v@[q] == old(cpu).v@[q],
        decreases x + 1 - r,
    {
        cpu.v[r as usize] = mem.ram[i + r as usize];
        r += 1;
    }
    assert(cpu@.v =~= read_spec(old(cpu)@, mem@.ram, x).unwrap().v);
    Ok(())
}

/// Whether one sprite row `data`, drawn in screen row `py` with its left edge
/// at column `x0`, has a set pixel at framebuffer index `p` among its first
/// `cols` columns.
spec fn row_covers(x0: int, py: int, data: u8, cols: int, p: int) -> bool {
    p / 64 == py && (p % 64 - x0) % 64 < cols && row_bit(data, ((p % 64 - x0) % 64) as u8)
}

/// Column `col` of a sprite row falls on exactly one pixel of its screen row.
proof fn lemma_row_pixel(x0: int, py: int, col: int, pos: int, p: int)
    requires
        0 <= x0 < 256,
        0 <= py < 32,
        0 <= col < 8,
        pos == (x0 + col) % 64 + 64 * py,
        0 <= p < 2048,
    ensures
        0 <= pos < 2048,
        pos / 64 == py,
        (pos % 64 - x0) % 64 == col,
        p != pos ==> !(p / 64 == py && (p % 64 - x0) % 64 == col),
{
}

/// Row `row` of a sprite falls on exactly one row of the screen.
proof fn lemma_row_at(sprite: Sprite, row: int, p: int)
    requires
        0 <= sprite.y < 256,
        0 <= row < 32,
        0 <= p < 2048,
    ensures
        sprite.row_at(p / 64) == row <==> p / 64 == (sprite.y + row) % 32,
        0 <= sprite.row_at(p / 64) < 32,
{
}

/// Draws one sprite row `data` in screen row `py` with its left edge at column
/// `x0`, and tells whether that cleared a pixel.
fn draw_row(mem: &mut Memory, data: u8, x0: usize, py: usize) -> (hit: bool)
    requires
        x0 < 256,
        py < 32,
    ensures
        final(mem).ram == old(mem).ram,
        final(mem).keys == old(mem).keys,
        forall|p: int|
            0 <= p < 2048 ==> final(mem).video@[p] == (old(mem).video@[p] != row_covers(
                x0 as int,
                py as int,
                data,
                8,
                p,
            )),
        hit ==> exists|p: int|
            0 <= p < 2048 && old(mem).video@[p] && #[trigger] row_covers(
                x0 as int,
                py as int,
                data,
                8,
                p,
            ),
        !hit ==> forall|p: int|
            0 <= p < 2048 && #[trigger] row_covers(x0 as int, py as int, data, 8, p) ==> !old(
                mem,
            ).video@[p],
{
    let ghost before = mem.video@;
    let mut hit: bool = false;
    let mut col: u8 = 0;
    while col < 8
        invariant
            col <= 8,
            x0 < 256,
            py < 32,
            before == old(mem).video@,
            mem.ram == old(mem).ram,
            mem.keys == old(mem).keys,
            forall|p: int|
                0 <= p < 2048 ==> mem.video@[p] == (before[p] != row_covers(
                    x0 as int,
                    py as int,
                    data,
                    col as int,
                    p,
                )),
            hit ==> exists|p: int|
                0 <= p < 2048 && before[p] && #[trigger] row_covers(
                    x0 as int,
                    py as int,
                    data,
                    8,
                    p,
                ),
            !hit ==> forall|p: int|
                0 <= p < 2048 && #[trigger] row_covers(x0 as int, py as int, data, col as int, p)
                    ==> !before[p],
        decreases 8 - col,
    {
        let px: usize = (x0 + col as usize) % 64;
        let pos: usize = px + 64 * py;
        let ghost video_before = mem.video@;
        proof {
            lemma_row_pixel(x0 as int, py as int, col as int, pos as int, pos as int);
        }
        if data & (0x80 >> col) != 0 {
            if mem.video[pos] {
                assert(row_covers(x0 as int, py as int, data, 8, pos as int));
                hit = true;
                mem.video[pos] = false;
            } else {
                mem.video[pos] = true;
            }
        }
        proof {
            assert forall|p: int| 0 <= p < 2048 implies (row_covers(
                x0 as int,
                py as int,
                data,
                col + 1,
                p,
            ) == (row_covers(x0 as int, py as int, data, col as int, p) || (p == pos && row_bit(
                data,
                col,
            )))) by {
                lemma_row_pixel(x0 as int, py as int, col as int, pos as int, p);
            }
            assert forall|p: int| 0 <= p < 2048 implies mem.video@[p] == (before[p] != row_covers(
                x0 as int,
                py as int,
                data,
                col + 1,
                p,
            )) by {
                if p != pos {
                    assert(mem.video@[p] == video_before[p]);
                }
            }
        }
        col += 1;
    }
    hit
}

/// DRAW: draws the sprite of `n` rows that memory holds at the index register
/// with its top left corner at column `vx mod 64`, row `vy mod 32`, wrapping
/// round the edges. Each set pixel of the sprite flips the pixel under it. The
/// flag register tells whether any pixel was cleared that way. Rows past the
/// end of memory are a fault, and then nothing is drawn.
pub fn draw(cpu: &mut Core, mem: &mut Memory, x: u8, y: u8, n: u8) -> (r: Result<(), Fault>)
    requires
        x < 16,
        y < 16,
        n < 16,
    ensures
        machine_outcome(
            r,
            MachineState { cpu: old(cpu)@, mem: old(mem)@ },
            MachineState { cpu: final(cpu)@, mem: final(mem)@ },
            draw_spec(old(cpu)@, old(mem)@, x, y, n),
        ),
{
    let i: usize = cpu.i as usize;
    if n > 0 && i + n as usize > 4096 {
        return Err(Fault::OutOfBounds);
    }
    let x0: usize = cpu.v[x as usize] as usize;
    let y0: usize = cpu.v[y as usize] as usize;
    let ghost sprite = sprite_of(old(cpu)@, old(mem)@.ram, x, y, n);
    let ghost before = old(mem)@.video;
    let mut hit: bool = false;
    let mut row: u8 = 0;
    while row < n
        invariant
            row <= n,
            n < 16,
            n == 0 || i + n <= 4096,
            i == old(cpu).i,
            x0 == sprite.x,
            y0 == sprite.y,
            x0 < 256,
            y0 < 256,
            sprite == sprite_of(old(cpu)@, old(mem)@.ram, x, y, n),
            before == old(mem)@.video,
            mem.ram == old(mem).ram,
            mem.keys == old(mem).keys,
            forall|p: int|
                0 <= p < 2048 ==> mem.video@[p] == (before[p] != (sprite.covers(p)
                    && sprite.row_at(p / 64) < row)),
            hit ==> sprite.collides(before),
            !hit ==> forall|p: int|
                0 <= p < 2048 && #[trigger] sprite.covers(p) && sprite.row_at(p / 64) < row
                    ==> !before[p],
        decreases n - row,
    {
        let data: u8 = mem.ram[i + row as usize];
        let py: usize = (y0 + row as usize) % 32;
        let ghost video_before = mem.video@;
        proof {
            assert forall|p: int| 0 <= p < 2048 implies (row_covers(
                x0 as int,
                py as int,
                data,
                8,
                p,
            ) == (sprite.covers(p) && sprite.row_at(p / 64) == row)) by {
                lemma_row_at(sprite, row as int, p);
            }
        }
        let row_hit: bool = draw_row(mem, data, x0, py);
        proof {
            if row_hit {
                let w = choose|p: int|
                    0 <= p < 2048 && video_before[p] && #[trigger] row_covers(
                        x0 as int,
                        py as int,
                        data,
                        8,
                        p,
                    );
                assert(before[w] && sprite.covers(w));
            }
        }
        hit = hit || row_hit;
        row += 1;
    }
    cpu.v[0xF] = if hit { 1 } else { 0 };
    proof {
        assert forall|p: int| 0 <= p < 2048 && sprite.covers(p) implies sprite.row_at(p / 64)
            < n by {}
        assert(mem@.video =~= sprite.drawn(before));
        assert(hit == sprite.collides(before));
    }
    Ok(())
}

/// Executes `op` on the machine made of `cpu` and `mem`, where `random` is the
/// byte that the generator hands out if `op` asks for one. An instruction that
/// faults leaves the machine as it was.
pub fn exec(cpu: &mut Core, mem: &mut Memory, op: Opcode, random: u8) -> (r: Result<(), Fault>)
    requires
        can_step(old(cpu)@),
    ensures
        machine_outcome(
            r,
            MachineState { cpu: old(cpu)@, mem: old(mem)@ },
            MachineState { cpu: final(cpu)@, mem: final(mem)@ },
            step(MachineState { cpu: old(cpu)@, mem: old(mem)@ }, op, random),
        ),
{
    let x: u8 = op.x();
    let y: u8 = op.y();
    let n: u8 = op.n();
    let nn: u8 = op.nn();
    let nnn: u16 = op.nnn();
    match op.group() {
        0x0 => {
            if nn == 0xE0 {
                clr(mem);
                Ok(())
            } else if nn == 0xEE {
                rts(cpu)
            } else {
                Err(Fault::UnknownInstruction)
            }
        },
        0x1 => {
            jump(cpu, nnn);
            Ok(())
        },
        0x2 => call(cpu, nnn),
        0x3 => {
            ske(cpu, x, nn);
            Ok(())
        },
        0x4 => {
            skne(cpu, x, nn);
            Ok(())
        },
        0x5 => {
            if n != 0 {
                return Err(Fault::UnknownInstruction);
            }
            skre(cpu, x, y);
            Ok(())
        },
        0x6 => {
            load(cpu, x, nn);
            Ok(())
        },
        0x7 => {
            self::add(cpu, x, nn);
            Ok(())
        },
        0x8 => {
            if n == 0x0 {
                mov(cpu, x, y);
            } else if n == 0x1 {
                or(cpu, x, y);
            } else if n == 0x2 {
                and(cpu, x, y);
            } else if n == 0x3 {
                xor(cpu, x, y);
            } else if n == 0x4 {
                addr(cpu, x, y);
            } else if n == 0x5 {
                self::sub(cpu, x, y);
            } else if n == 0x6 {
                shr(cpu, x, y);
            } else if n == 0x7 {
                subn(cpu, x, y);
            } else if n == 0xE {
                shl(cpu, x, y);
            } else {
                return Err(Fault::UnknownInstruction);
            }
            Ok(())
        },
        0x9 => {
            if n != 0 {
                return Err(Fault::UnknownInstruction);
            }
            skrne(cpu, x, y);
            Ok(())
        },
        0xA => {
            loadi(cpu, nnn);
            Ok(())
        },
        0xB => {
            jumpi(cpu, nnn);
            Ok(())
        },
        0xC => {
            rand(cpu, x, nn, random);
            Ok(())
        },
        0xD => draw(cpu, mem, x, y, n),
        0xE => {
            if nn == 0x9E {
                skp(cpu, mem, x)
            } else if nn == 0xA1 {
                sknp(cpu, mem, x)
            } else {
                Err(Fault::UnknownInstruction)
            }
        },
        _ => {
            if nn == 0x07 {
                moved(cpu, x);
                Ok(())
            } else if nn == 0x0A {
                keyd(cpu, mem, x);
                Ok(())
            } else if nn == 0x15 {
                loadd(cpu, x);
                Ok(())
            } else if nn == 0x18 {
                loads(cpu, x);
                Ok(())
            } else if nn == 0x1E {
                addi(cpu, x)
            } else if nn == 0x29 {
                ldspr(cpu, x);
                Ok(())
            } else if nn == 0x33 {
                bcd(cpu, mem, x)
            } else if nn == 0x55 {
                stor(cpu, mem, x)
            } else if nn == 0x65 {
                read(cpu, mem, x)
            } else {
                Err(Fault::UnknownInstruction)
            }
        },
    }
}

} // verus!
