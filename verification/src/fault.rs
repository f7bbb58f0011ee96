use vstd::prelude::*;

verus! {

/// The conditions under which the machine halts. None of them is recoverable:
/// an instruction either completes or leaves the machine as it was and reports
/// one of these.
#[derive(Clone, Copy, Debug, PartialEq, Eq, Structural)]
pub enum Fault {
    /// Fewer than two bytes of memory remain at the program counter.
    InsufficientBytes,
    /// The fetched word matches none of the defined instructions.
    UnknownInstruction,
    /// A call was made with sixteen return addresses already pending.
    StackOverflow,
    /// A return was made with no return address pending.
    StackUnderflow,
    /// The program does not fit between the load offset and the end of memory.
    ProgramTooLarge,
    /// An instruction addressed memory past its end, a key outside the keypad,
    /// or moved the index register past what sixteen bits hold.
    OutOfBounds,
}

impl Fault {
    /// Whether the fault arose while decoding an instruction.
    pub fn is_decode(&self) -> (b: bool)
        ensures
            b <==> (*self == Fault::InsufficientBytes || *self == Fault::UnknownInstruction),
    {
        match self {
            Fault::InsufficientBytes => true,
            Fault::UnknownInstruction => true,
            _ => false,
        }
    }
}

} // verus!
