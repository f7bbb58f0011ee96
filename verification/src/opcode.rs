use vstd::prelude::*;

verus! {

/// One instruction word: two bytes, the first being the more significant.
#[derive(Clone, Copy, Debug, PartialEq, Eq, Structural)]
pub struct Opcode(pub u16);

impl Opcode {
    /// The top nibble, which selects the instruction family.
    pub open spec fn spec_group(&self) -> u8 {
        (self.0 / 4096) as u8
    }

    /// The second nibble: a register index.
    pub open spec fn spec_x(&self) -> u8 {
        ((self.0 / 256) % 16) as u8
    }

    /// The third nibble: a register index.
    pub open spec fn spec_y(&self) -> u8 {
        ((self.0 / 16) % 16) as u8
    }

    /// The lowest nibble: a four-bit immediate.
    pub open spec fn spec_n(&self) -> u8 {
        (self.0 % 16) as u8
    }

    /// The low byte: an eight-bit immediate.
    pub open spec fn spec_nn(&self) -> u8 {
        (self.0 % 256) as u8
    }

    /// The low twelve bits: an address.
    pub open spec fn spec_nnn(&self) -> u16 {
        (self.0 % 4096) as u16
    }

    /// Decodes the instruction at the start of `mem`. There is one exactly
    /// when `mem` holds at least two bytes.
    pub fn read(mem: &[u8]) -> (op: Option<Opcode>)
        ensures
            mem@.len() < 2 ==> op.is_none(),
            mem@.len() >= 2 ==> op == Some(Opcode((mem@[0] * 256 + mem@[1]) as u16)),
    {
        if mem.len() < 2 {
            None
        } else {
            let hi: u8 = mem[0];
            let lo: u8 = mem[1];
            let b1: u16 = (hi as u16) << 8;
            let b2: u16 = lo as u16;
            assert(((hi as u16) << 8) | (lo as u16) == (hi as u16) * 256 + (lo as u16))
                by (bit_vector);
            Some(Opcode(b1 | b2))
        }
    }

    /// The top nibble.
    #[verifier::when_used_as_spec(spec_group)]
    pub fn group(&self) -> (g: u8)
        ensures
            g == self.spec_group(),
            g < 16,
    {
        let w: u16 = self.0;
        assert((w >> 12) & 0x0f == w / 4096) by (bit_vector);
        ((w >> 12) & 0x0f) as u8
    }

    /// The second nibble.
    #[verifier::when_used_as_spec(spec_x)]
    pub fn x(&self) -> (x: u8)
        ensures
            x == self.spec_x(),
            x < 16,
    {
        let w: u16 = self.0;
        assert((w >> 8) & 0x0f == (w / 256) % 16) by (bit_vector);
        ((w >> 8) & 0x0f) as u8
    }

    /// The third nibble.
    #[verifier::when_used_as_spec(spec_y)]
    pub fn y(&self) -> (y: u8)
        ensures
            y == self.spec_y(),
            y < 16,
    {
        let w: u16 = self.0;
        assert((w >> 4) & 0x0f == (w / 16) % 16) by (bit_vector);
        ((w >> 4) & 0x0f) as u8
    }

    /// The lowest nibble.
    #[verifier::when_used_as_spec(spec_n)]
    pub fn n(&self) -> (n: u8)
        ensures
            n == self.spec_n(),
            n < 16,
    {
        let w: u16 = self.0;
        assert(w & 0x0f == w % 16) by (bit_vector);
        (w & 0x0f) as u8
    }

    /// The low byte.
    #[verifier::when_used_as_spec(spec_nn)]
    pub fn nn(&self) -> (nn: u8)
        ensures
            nn == self.spec_nn(),
    {
        let w: u16 = self.0;
        assert(w & 0xff == w % 256) by (bit_vector);
        (w & 0xff) as u8
    }

    /// The low twelve bits.
    #[verifier::when_used_as_spec(spec_nnn)]
    pub fn nnn(&self) -> (nnn: u16)
        ensures
            nnn == self.spec_nnn(),
            nnn < 4096,
    {
        let w: u16 = self.0;
        assert(w & 0x0fff == w % 4096) by (bit_vector);
        w & 0x0fff
    }
}

} // verus!
