use vstd::prelude::*;

verus! {

/// A current transform and the transforms that were set aside, oldest
/// first. What a transform is made of is up to the caller.
pub struct TransformStack<M> {
    pub current: M,
    pub saved: Vec<M>,
}

/// What a [`TransformStack`] holds.
pub ghost struct StackView<M> {
    pub current: M,
    pub saved: Seq<M>,
}

/// The stack after a copy of the current transform was set aside.
pub open spec fn spec_save<M>(stack: StackView<M>) -> StackView<M> {
    StackView { current: stack.current, saved: stack.saved.push(stack.current) }
}

/// The stack after the transform saved last was made current again; a
/// stack with nothing saved stays as it is.
pub open spec fn spec_restore<M>(stack: StackView<M>) -> StackView<M> {
    if stack.saved.len() == 0 {
        stack
    } else {
        StackView { current: stack.saved.last(), saved: stack.saved.drop_last() }
    }
}

impl<M> View for TransformStack<M> {
    type V = StackView<M>;

    open spec fn view(&self) -> StackView<M> {
        StackView { current: self.current, saved: self.saved@ }
    }
}

impl<M: Copy> TransformStack<M> {
    /// Starts with `initial` as the current transform and nothing saved.
    pub fn new(initial: M) -> (stack: Self)
        ensures
            stack@ == (StackView { current: initial, saved: Seq::<M>::empty() }),
    {
        TransformStack { current: initial, saved: Vec::new() }
    }

    /// Sets a copy of the current transform aside.
    pub fn save(&mut self)
        ensures
            final(self)@ == spec_save(old(self)@),
    {
        let current = self.current;
        self.saved.push(current);
    }

    /// Makes the transform that was saved last current again and forgets
    /// the one that was current. With nothing saved, nothing happens.
    pub fn restore(&mut self)
        ensures
            final(self)@ == spec_restore(old(self)@),
    {
        match self.saved.pop() {
            Some(transform) => {
                self.current = transform;
            },
            None => {},
        }
    }

    /// How many transforms are set aside.
    pub fn depth(&self) -> (depth: usize)
        ensures
            depth == self@.saved.len(),
    {
        self.saved.len()
    }
}

/// Saving and restoring at once changes nothing: the current transform and
/// all that was saved before are as they were, whatever was done earlier.
pub proof fn lemma_save_restore_is_identity<M>(stack: StackView<M>)
    ensures
        spec_restore(spec_save(stack)) == stack,
{
    assert(stack.saved.push(stack.current).drop_last() =~= stack.saved);
}

/// Saving, changing the current transform at will, and restoring brings the
/// stack back to where it was before the save.
pub proof fn lemma_restore_undoes_excursion<M>(stack: StackView<M>, changed: M)
    ensures
        spec_restore(StackView { current: changed, saved: spec_save(stack).saved }) == stack,
{
    assert(stack.saved.push(stack.current).drop_last() =~= stack.saved);
}

} // verus!
