use vstd::prelude::*;
use crate::fault::Fault;

verus! {

/// The size of the address space, in bytes.
pub const RAM_SIZE: usize = 4096;

/// The width of the screen, in pixels.
pub const SCREEN_WIDTH: usize = 64;

/// The height of the screen, in pixels.
pub const SCREEN_HEIGHT: usize = 32;

/// The number of pixels of the screen.
pub const VIDEO_SIZE: usize = 2048;

/// The number of keys of the keypad.
pub const KEY_COUNT: usize = 16;

/// The address at which programs are loaded and start.
pub const PROGRAM_START: usize = 0x200;

/// The number of bytes the font takes: sixteen glyphs of five rows.
pub const FONT_SIZE: usize = 80;

/// The glyphs of the hexadecimal digits, five rows of eight pixels each,
/// digit `d` at offset `5 * d`.
pub const FONTS: [u8; 80] = [
    0xF0, 0x90, 0x90, 0x90, 0xF0,
    0x20, 0x60, 0x20, 0x20, 0x70,
    0xF0, 0x10, 0xF0, 0x80, 0xF0,
    0xF0, 0x10, 0xF0, 0x10, 0xF0,
    0x90, 0x90, 0xF0, 0x10, 0x10,
    0xF0, 0x80, 0xF0, 0x10, 0xF0,
    0xF0, 0x80, 0xF0, 0x90, 0xF0,
    0xF0, 0x10, 0x20, 0x40, 0x40,
    0xF0, 0x90, 0xF0, 0x90, 0xF0,
    0xF0, 0x90, 0xF0, 0x10, 0xF0,
    0xF0, 0x90, 0xF0, 0x90, 0x90,
    0xE0, 0x90, 0xE0, 0x90, 0xE0,
    0xF0, 0x80, 0x80, 0x80, 0xF0,
    0xE0, 0x90, 0x90, 0x90, 0xE0,
    0xF0, 0x80, 0xF0, 0x80, 0xF0,
    0xF0, 0x80, 0xF0, 0x80, 0x80,
];

/// What a machine can address: the bytes of RAM, the screen row by row, and
/// the state of the sixteen keys.
pub struct Memory {
    /// The address space: the font from address 0, programs from 0x200.
    pub ram: [u8; 4096],
    /// The framebuffer, row by row, 64 pixels to the row; `true` is lit.
    pub video: [bool; 2048],
    /// Whether each key of the keypad is pressed.
    pub keys: [bool; 16],
}

/// The mathematical content of a `Memory`.
pub struct MemoryState {
    pub ram: Seq<u8>,
    pub video: Seq<bool>,
    pub keys: Seq<bool>,
}

impl MemoryState {
    /// Whether the three parts have the sizes of the machine.
    pub open spec fn wf(self) -> bool {
        self.ram.len() == RAM_SIZE && self.video.len() == VIDEO_SIZE && self.keys.len()
            == KEY_COUNT
    }
}

/// RAM as it is before any program is loaded: the font, then zeroes.
pub open spec fn initial_ram() -> Seq<u8> {
    Seq::new(RAM_SIZE as nat, |a: int| if a < FONT_SIZE { FONTS@[a] } else { 0u8 })
}

/// `ram` with the font written over its first eighty bytes.
pub open spec fn with_font(ram: Seq<u8>) -> Seq<u8> {
    Seq::new(ram.len(), |a: int| if a < FONT_SIZE { FONTS@[a] } else { ram[a] })
}

/// `ram` with `program` written from the load offset on.
pub open spec fn with_program(ram: Seq<u8>, program: Seq<u8>) -> Seq<u8> {
    Seq::new(
        ram.len(),
        |a: int|
            if PROGRAM_START <= a < PROGRAM_START + program.len() {
                program[a - PROGRAM_START]
            } else {
                ram[a]
            },
    )
}

/// A sequence of `n` cleared flags.
pub open spec fn all_clear(n: nat) -> Seq<bool> {
    Seq::new(n, |p: int| false)
}

impl Memory {
    /// The content of the memory.
    pub open spec fn view(&self) -> MemoryState {
        MemoryState { ram: self.ram@, video: self.video@, keys: self.keys@ }
    }

    /// Memory at machine start: the font in place, the rest of RAM zero, a
    /// blank screen and no key pressed.
    pub fn new() -> (m: Memory)
        ensures
            m@.ram == initial_ram(),
            m@.video == all_clear(VIDEO_SIZE as nat),
            m@.keys == all_clear(KEY_COUNT as nat),
    {
        let mut m = Memory { ram: [0; 4096], video: [false; 2048], keys: [false; 16] };
        m.write_font();
        assert(m@.ram =~= initial_ram());
        assert(m@.video =~= all_clear(VIDEO_SIZE as nat));
        assert(m@.keys =~= all_clear(KEY_COUNT as nat));
        m
    }

    /// Copies `program` into RAM from the load offset on and touches nothing
    /// else. A program that does not fit is refused and nothing is written.
    pub fn load_program(&mut self, program: &[u8]) -> (r: Result<(), Fault>)
        ensures
            program@.len() <= RAM_SIZE - PROGRAM_START ==> r.is_ok() && final(self)@
                == (MemoryState { ram: with_program(old(self)@.ram, program@), ..old(self)@ }),
            program@.len() > RAM_SIZE - PROGRAM_START ==> r == Err::<(), Fault>(
                Fault::ProgramTooLarge,
            ) && final(self)@ == old(self)@,
    {
        let n: usize = program.len();
        if n > 4096 - 0x200 {
            return Err(Fault::ProgramTooLarge);
        }
        let mut k: usize = 0;
        while k < n
            invariant
                k <= n,
                n == program@.len(),
                n <= 4096 - 0x200,
                self.video == old(self).video,
                self.keys == old(self).keys,
                forall|a: int| 0x200 <= a < 0x200 + k ==> self.ram@[a] == program@[a - 0x200],
                forall|a: int|
                    0 <= a < 4096 && !(0x200 <= a < 0x200 + k) ==> self.ram@[a] == old(
                        self,
                    ).ram@[a],
            decreases n - k,
        {
            self.ram[0x200 + k] = program[k];
            k += 1;
        }
        assert(self@.ram =~= with_program(old(self)@.ram, program@));
        Ok(())
    }

    /// Restores the font, blanks the screen and releases every key. RAM past
    /// the font is left as it is.
    pub fn reset(&mut self)
        ensures
            final(self)@.ram == with_font(old(self)@.ram),
            final(self)@.video == all_clear(VIDEO_SIZE as nat),
            final(self)@.keys == all_clear(KEY_COUNT as nat),
    {
        self.write_font();
        self.clear_video();
        let mut k: usize = 0;
        while k < 16
            invariant
                k <= 16,
                self@.ram == with_font(old(self)@.ram),
                self@.video == all_clear(VIDEO_SIZE as nat),
                forall|j: int| 0 <= j < k ==> !self.keys@[j],
            decreases 16 - k,
        {
            self.keys[k] = false;
            k += 1;
        }
        assert(self@.keys =~= all_clear(KEY_COUNT as nat));
    }

    /// Writes the font over the first eighty bytes of RAM.
    fn write_font(&mut self)
        ensures
            final(self)@ == (MemoryState { ram: with_font(old(self)@.ram), ..old(self)@ }),
    {
        let mut a: usize = 0;
        while a < 80
            invariant
                a <= 80,
                self.video == old(self).video,
                self.keys == old(self).keys,
                forall|b: int| 0 <= b < a ==> self.ram@[b] == FONTS@[b],
                forall|b: int| a <= b < 4096 ==> self.ram@[b] == old(self).ram@[b],
            decreases 80 - a,
        {
            self.ram[a] = FONTS[a];
            a += 1;
        }
        assert(self@.ram =~= with_font(old(self)@.ram));
    }

    /// Blanks the screen.
    pub fn clear_video(&mut self)
        ensures
            final(self)@ == (MemoryState { video: all_clear(VIDEO_SIZE as nat), ..old(self)@ }),
    {
        let mut p: usize = 0;
        while p < 2048
            invariant
                p <= 2048,
                self.ram == old(self).ram,
                self.keys == old(self).keys,
                forall|q: int| 0 <= q < p ==> !self.video@[q],
            decreases 2048 - p,
        {
            self.video[p] = false;
            p += 1;
        }
        assert(self@.video =~= all_clear(VIDEO_SIZE as nat));
    }
}

} // verus!
