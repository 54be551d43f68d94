//! The operand stack of 256-bit words.

use vstd::prelude::*;
use crate::error::Error;
use crate::word::Word;

verus! {

/// Most words the operand stack can hold.
pub const STACK_CAPACITY: usize = 1024;

/// A bounded stack of 256-bit words; the top is the last element of the view.
pub struct Stack {
    items: Vec<Word>,
}

impl View for Stack {
    type V = Seq<Word>;

    closed spec fn view(&self) -> Seq<Word> {
        self.items@
    }
}

impl Stack {
    /// The stack never outgrows its capacity.
    pub open spec fn wf(self) -> bool {
        self@.len() <= STACK_CAPACITY
    }

    /// An empty stack.
    pub fn new() -> (r: Stack)
        ensures
            r.wf(),
            r@.len() == 0,
    {
        Stack { items: Vec::new() }
    }

    /// How many words the stack holds.
    pub fn len(&self) -> (r: usize)
        ensures
            r == self@.len(),
    {
        self.items.len()
    }

    /// Pushes `value` on top; fails with `StackOverflow` at capacity.
    pub fn push(&mut self, value: Word) -> (r: Result<(), Error>)
        requires
            old(self).wf(),
        ensures
            final(self).wf(),
            old(self)@.len() < STACK_CAPACITY ==> r == Ok::<(), Error>(()) && final(self)@
                == old(self)@.push(value),
            old(self)@.len() >= STACK_CAPACITY ==> r == Err::<(), Error>(Error::StackOverflow)
                && final(self)@ == old(self)@,
    {
        if self.items.len() >= STACK_CAPACITY {
            Err(Error::StackOverflow)
        } else {
            self.items.push(value);
            Ok(())
        }
    }

    /// Pops the top word; fails with `StackUnderflow` on an empty stack.
    pub fn pop(&mut self) -> (r: Result<Word, Error>)
        requires
            old(self).wf(),
        ensures
            final(self).wf(),
            old(self)@.len() > 0 ==> r == Ok::<Word, Error>(old(self)@.last()) && final(self)@
                == old(self)@.drop_last(),
            old(self)@.len() == 0 ==> r == Err::<Word, Error>(Error::StackUnderflow)
                && final(self)@ == old(self)@,
    {
        if self.items.len() == 0 {
            Err(Error::StackUnderflow)
        } else {
            match self.items.pop() {
                Some(w) => Ok(w),
                None => Err(Error::StackUnderflow),
            }
        }
    }
}

} // verus!
