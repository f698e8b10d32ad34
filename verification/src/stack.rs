use vstd::prelude::*;

verus! {

/// Number of return addresses the call stack can hold.
pub const STACK_DEPTH: usize = 16;

/// Message returned when a subroutine call finds the stack full.
pub open spec fn overflow_message() -> &'static str {
    "Stack overflow: attempted to push value when stack is full"
}

/// Message returned when a return finds the stack empty.
pub open spec fn underflow_message() -> &'static str {
    "Stack underflow: attempted to return with an empty stack"
}

/// Pushing `value` onto a stack holding `entries`: the new entries, or the
/// overflow message when the stack is full.
pub open spec fn push_result(entries: Seq<u16>, value: u16) -> Result<Seq<u16>, &'static str> {
    if entries.len() >= STACK_DEPTH {
        Err(overflow_message())
    } else {
        Ok(entries.push(value))
    }
}

/// Popping a stack holding `entries`: the top entry and the entries below
/// it, or the underflow message when the stack is empty.
pub open spec fn pop_result(entries: Seq<u16>) -> Result<(u16, Seq<u16>), &'static str> {
    if entries.len() == 0 {
        Err(underflow_message())
    } else {
        Ok((entries.last(), entries.drop_last()))
    }
}

/// The call stack: sixteen slots and the number of them in use.
#[derive(Debug)]
pub struct Stack {
    pub values: [u16; 16],
    pub sp: u8,
}

impl View for Stack {
    type V = Seq<u16>;

    /// The live entries, bottom first.
    open spec fn view(&self) -> Seq<u16> {
        self.values@.subrange(0, self.sp as int)
    }
}

impl Stack {
    /// The stack pointer never exceeds the number of slots.
    pub open spec fn wf(&self) -> bool {
        self.sp <= STACK_DEPTH
    }

    /// An empty stack.
    pub fn new() -> (s: Self)
        ensures
            s.wf(),
            s.sp == 0,
            s@ == Seq::<u16>::empty(),
            forall|k: int| 0 <= k < STACK_DEPTH ==> #[trigger] s.values@[k] == 0u16,
    {
        let s = Stack { values: [0u16; 16], sp: 0 };
        assert(s@ =~= Seq::<u16>::empty());
        s
    }

    /// Pushes a return address; fails, leaving the stack as it was, when all
    /// slots are in use.
    pub fn push(&mut self, value: u16) -> (r: Result<(), &'static str>)
        requires
            old(self).wf(),
        ensures
            final(self).wf(),
            match push_result(old(self)@, value) {
                Ok(entries) => r is Ok && final(self)@ == entries && final(self).values@ == old(
                    self,
                ).values@.update(old(self).sp as int, value),
                Err(msg) => r == Err::<(), &'static str>(msg) && *final(self) == *old(self),
            },
    {
        if self.sp as usize >= self.values.len() {
            return Err("Stack overflow: attempted to push value when stack is full");
        }
        self.values[self.sp as usize] = value;
        self.sp = self.sp + 1;
        assert(self@ =~= old(self)@.push(value));
        Ok(())
    }

    /// Pops the most recent return address; fails, leaving the stack as it
    /// was, when the stack is empty.
    pub fn pop(&mut self) -> (r: Result<u16, &'static str>)
        requires
            old(self).wf(),
        ensures
            final(self).wf(),
            match pop_result(old(self)@) {
                Ok((top, entries)) => r == Ok::<u16, &'static str>(top) && final(self)@ == entries
                    && final(self).values == old(self).values,
                Err(msg) => r == Err::<u16, &'static str>(msg) && *final(self) == *old(self),
            },
    {
        if self.sp == 0 {
            return Err("Stack underflow: attempted to return with an empty stack");
        }
        self.sp = self.sp - 1;
        assert(self@ =~= old(self)@.drop_last());
        Ok(self.values[self.sp as usize])
    }
}

impl Default for Stack {
    fn default() -> (s: Self)
        ensures
            s.wf(),
            s.sp == 0,
            s@ == Seq::<u16>::empty(),
            forall|k: int| 0 <= k < STACK_DEPTH ==> #[trigger] s.values@[k] == 0u16,
    {
        Stack::new()
    }
}

/// A pop right after a successful push gives back the pushed value and the
/// stack as it was before the push.
pub proof fn lemma_pop_undoes_push(entries: Seq<u16>, value: u16)
    requires
        entries.len() < STACK_DEPTH,
    ensures
        push_result(entries, value) is Ok,
        pop_result(push_result(entries, value)->Ok_0) == Ok::<(u16, Seq<u16>), &'static str>(
            (value, entries),
        ),
{
    assert(entries.push(value).drop_last() =~= entries);
}

/// A push onto a full stack fails, and a pop of an empty stack fails.
pub proof fn lemma_stack_limits(entries: Seq<u16>, value: u16)
    ensures
        entries.len() >= STACK_DEPTH ==> push_result(entries, value) == Err::<Seq<u16>, &'static str>(
            overflow_message(),
        ),
        entries.len() == 0 ==> pop_result(entries) == Err::<(u16, Seq<u16>), &'static str>(
            underflow_message(),
        ),
{
}

} // verus!
