use vstd::prelude::*;
use crate::emu_err::EmuErr;

verus! {

/// Number of return addresses the call stack holds.
pub const STACK_LENGTH: usize = 0x10;

/// The bounded call stack of return addresses.
pub struct Stack {
    stack: [u16; STACK_LENGTH],
    sp: usize,
}

impl View for Stack {
    type V = Seq<u16>;

    /// The addresses on the stack, oldest first.
    closed spec fn view(&self) -> Seq<u16> {
        self.stack@.subrange(0, self.sp as int)
    }
}

impl Stack {
    pub closed spec fn wf(&self) -> bool {
        self.sp <= STACK_LENGTH
    }

    pub fn new() -> (r: Self)
        ensures
            r.wf(),
            r@ == Seq::<u16>::empty(),
    {
        let r = Stack { stack: [0; STACK_LENGTH], sp: 0 };
        assert(r@ =~= Seq::<u16>::empty());
        r
    }

    /// The number of addresses on the stack.
    pub fn depth(&self) -> (r: usize)
        requires
            self.wf(),
        ensures
            r == self@.len(),
            r <= STACK_LENGTH,
    {
        self.sp
    }

    pub fn push(&mut self, val: u16) -> (r: Result<(), EmuErr>)
        requires
            old(self).wf(),
        ensures
            final(self).wf(),
            old(self)@.len() < STACK_LENGTH ==> r == Ok::<(), EmuErr>(()) && final(self)@ == old(self)@.push(val),
            old(self)@.len() >= STACK_LENGTH ==> r == Err::<(), EmuErr>(EmuErr::StackOverflow { sp: STACK_LENGTH })
                && final(self)@ == old(self)@,
    {
        if self.sp >= STACK_LENGTH {
            return Err(EmuErr::StackOverflow { sp: self.sp });
        }
        self.stack[self.sp] = val;
        self.sp = self.sp + 1;
        assert(self@ =~= old(self)@.push(val));
        Ok(())
    }

    pub fn pop(&mut self) -> (r: Result<u16, EmuErr>)
        requires
            old(self).wf(),
        ensures
            final(self).wf(),
            old(self)@.len() > 0 ==> r == Ok::<u16, EmuErr>(old(self)@.last()) && final(self)@ == old(self)@.drop_last(),
            old(self)@.len() == 0 ==> r == Err::<u16, EmuErr>(EmuErr::StackUnderflow { sp: 0 })
                && final(self)@ == old(self)@,
    {
        if self.sp == 0 {
            return Err(EmuErr::StackUnderflow { sp: self.sp });
        }
        self.sp = self.sp - 1;
        let val = self.stack[self.sp];
        assert(self@ =~= old(self)@.drop_last());
        Ok(val)
    }
}

} // verus!
