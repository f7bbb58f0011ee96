use vstd::prelude::*;

verus! {

/// The number of return addresses the call stack can hold.
pub const STACK_DEPTH: usize = 16;

/// The call stack: at most sixteen return addresses, last in, first out.
#[derive(Clone, Copy, Debug)]
pub struct Stack {
    mem: [u16; 16],
    next: u8,
}

impl Stack {
    #[verifier::type_invariant]
    spec fn within_slots(&self) -> bool {
        self.next <= 16
    }

    /// The pending return addresses, the oldest first.
    pub closed spec fn view(&self) -> Seq<u16> {
        self.mem@.subrange(0, self.next as int)
    }

    /// An empty stack.
    pub fn new() -> (s: Stack)
        ensures
            s@ == Seq::<u16>::empty(),
    {
        let s = Stack { mem: [0; 16], next: 0 };
        assert(s@ =~= Seq::<u16>::empty());
        s
    }

    /// The number of pending return addresses.
    pub fn len(&self) -> (n: usize)
        ensures
            n == self@.len(),
            n <= STACK_DEPTH,
    {
        proof {
            use_type_invariant(self);
        }
        self.next as usize
    }

    /// Adds `i` on top. Fails, changing nothing, exactly when sixteen
    /// addresses are already pending.
    pub fn push(&mut self, i: u16) -> (r: Result<(), ()>)
        ensures
            old(self)@.len() < STACK_DEPTH ==> r.is_ok() && final(self)@ == old(self)@.push(i),
            old(self)@.len() >= STACK_DEPTH ==> r.is_err() && final(self)@ == old(self)@,
    {
        proof {
            use_type_invariant(&*self);
        }
        if self.next < 16 {
            self.mem[self.next as usize] = i;
            self.next += 1;
            assert(self@ =~= old(self)@.push(i));
            Ok(())
        } else {
            Err(())
        }
    }

    /// Takes the newest address off. Fails, changing nothing, exactly when
    /// the stack is empty.
    pub fn pop(&mut self) -> (r: Result<u16, ()>)
        ensures
            old(self)@.len() > 0 ==> r == Ok::<u16, ()>(old(self)@.last()) && final(self)@
                == old(self)@.drop_last(),
            old(self)@.len() == 0 ==> r.is_err() && final(self)@ == old(self)@,
    {
        proof {
            use_type_invariant(&*self);
        }
        if self.next > 0 {
            self.next -= 1;
            assert(self@ =~= old(self)@.drop_last());
            Ok(self.mem[self.next as usize])
        } else {
            Err(())
        }
    }

    /// Forgets every pending return address.
    pub fn clear(&mut self)
        ensures
            final(self)@ == Seq::<u16>::empty(),
    {
        self.next = 0;
        assert(self@ =~= Seq::<u16>::empty());
    }
}

} // verus!
