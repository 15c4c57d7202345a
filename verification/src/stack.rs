//! The symbolic operand stack: what is known of each slot while the
//! instructions of a block are replayed.

use vstd::prelude::*;
use crate::error::Error;

verus! {

/// A slot as contracts see it.
pub enum SlotView {
    /// A literal constant, by its characters.
    Constant(Seq<char>),
    /// A copy of the slot that stood at this index, counted from the bottom of
    /// the stack, when the copy was made.
    Duplicate(nat),
    /// A value of which nothing is known.
    Unknown,
}

/// What is known of one slot of the operand stack.
#[derive(Debug)]
pub enum Slot {
    /// A literal constant, in the text form that the instruction gave it.
    Constant(String),
    /// A copy of the slot that stood at this index, counted from the bottom of
    /// the stack, when the copy was made.
    Duplicate(usize),
    /// A value of which nothing is known.
    Unknown,
}

impl View for Slot {
    type V = SlotView;

    open spec fn view(&self) -> SlotView {
        match self {
            Slot::Constant(text) => SlotView::Constant(text@),
            Slot::Duplicate(index) => SlotView::Duplicate(*index as nat),
            Slot::Unknown => SlotView::Unknown,
        }
    }
}

impl Clone for Slot {
    fn clone(&self) -> (copy: Slot)
        ensures
            copy@ == self@,
    {
        match self {
            Slot::Constant(text) => Slot::Constant(text.clone()),
            Slot::Duplicate(index) => Slot::Duplicate(*index),
            Slot::Unknown => Slot::Unknown,
        }
    }
}

/// The stack after the slot `depth` below the top was copied onto it.
pub open spec fn duplicated(stack: Seq<SlotView>, depth: nat) -> Seq<SlotView>
    recommends
        depth < stack.len(),
{
    stack.push(SlotView::Duplicate((stack.len() - 1 - depth) as nat))
}

/// The stack after the top slot changed places with the slot `depth` below it.
pub open spec fn swapped(stack: Seq<SlotView>, depth: nat) -> Seq<SlotView>
    recommends
        depth < stack.len(),
{
    let top = stack.len() - 1;
    stack.update(top, stack[top - depth]).update(top - depth, stack[top])
}

/// The operand stack of the stack machine, slot by slot, the top last.
#[derive(Debug)]
pub struct ElementStack {
    /// The slots, the bottom of the stack first.
    pub slots: Vec<Slot>,
}

impl View for ElementStack {
    type V = Seq<SlotView>;

    open spec fn view(&self) -> Seq<SlotView> {
        Seq::new(self.slots.len() as nat, |i: int| self.slots[i]@)
    }
}

impl ElementStack {
    /// The empty stack.
    pub fn new() -> (stack: ElementStack)
        ensures
            stack@ == Seq::<SlotView>::empty(),
    {
        let stack = ElementStack { slots: Vec::new() };
        assert(stack@ =~= Seq::<SlotView>::empty());
        stack
    }

    /// The number of slots.
    pub fn len(&self) -> (depth: usize)
        ensures
            depth == self@.len(),
    {
        self.slots.len()
    }

    /// Whether the stack holds no slot.
    pub fn is_empty(&self) -> (empty: bool)
        ensures
            empty == (self@.len() == 0),
    {
        self.slots.len() == 0
    }

    /// Puts `slot` on top.
    pub fn push(&mut self, slot: Slot)
        ensures
            final(self)@ == old(self)@.push(slot@),
    {
        self.slots.push(slot);
        assert(self@ =~= old(self)@.push(slot@));
    }

    /// Takes the top slot off. Fails on the empty stack, which it leaves as
    /// it is.
    pub fn pop(&mut self) -> (popped: Result<Slot, Error>)
        ensures
            match popped {
                Ok(slot) => old(self)@.len() > 0 && slot@ == old(self)@.last() && final(self)@
                    == old(self)@.drop_last(),
                Err(error) => error == Error::StackUnderflow && old(self)@.len() == 0
                    && final(self)@ == old(self)@,
            },
    {
        match self.slots.pop() {
            Some(slot) => {
                assert(self@ =~= old(self)@.drop_last());
                Ok(slot)
            },
            None => Err(Error::StackUnderflow),
        }
    }

    /// Pushes a reference to the slot `depth` below the top: depth 0 is the
    /// top slot itself. Fails where the stack has no such slot, and then
    /// leaves it as it is.
    pub fn duplicate(&mut self, depth: usize) -> (done: Result<(), Error>)
        ensures
            match done {
                Ok(()) => depth < old(self)@.len() && final(self)@ == duplicated(
                    old(self)@,
                    depth as nat,
                ),
                Err(error) => error == Error::StackUnderflow && depth >= old(self)@.len()
                    && final(self)@ == old(self)@,
            },
    {
        let size: usize = self.slots.len();
        if depth >= size {
            return Err(Error::StackUnderflow);
        }
        self.push(Slot::Duplicate(size - 1 - depth));
        Ok(())
    }

    /// Exchanges the top slot with the slot `depth` below it: depth 0 leaves
    /// the stack as it is. Fails where the stack has no such slot, and then
    /// leaves it as it is.
    pub fn swap(&mut self, depth: usize) -> (done: Result<(), Error>)
        ensures
            match done {
                Ok(()) => depth < old(self)@.len() && final(self)@ == swapped(
                    old(self)@,
                    depth as nat,
                ),
                Err(error) => error == Error::StackUnderflow && depth >= old(self)@.len()
                    && final(self)@ == old(self)@,
            },
    {
        let size: usize = self.slots.len();
        if depth >= size {
            return Err(Error::StackUnderflow);
        }
        let top: usize = size - 1;
        let upper = self.slots[top].clone();
        let lower = self.slots[top - depth].clone();
        self.slots.set(top, lower);
        self.slots.set(top - depth, upper);
        assert(self@ =~= swapped(old(self)@, depth as nat));
        Ok(())
    }

    /// A copy of the stack as it stands, to seed the entry state of a block
    /// or to come back to.
    pub fn snapshot(&self) -> (copy: ElementStack)
        ensures
            copy@ == self@,
    {
        let mut slots: Vec<Slot> = Vec::new();
        let size: usize = self.slots.len();
        let mut index: usize = 0;
        while index < size
            invariant
                size == self.slots.len(),
                index <= size,
                slots.len() == index,
                forall|i: int| 0 <= i < index ==> slots[i]@ == self.slots[i]@,
            decreases size - index,
        {
            slots.push(self.slots[index].clone());
            index += 1;
        }
        let copy = ElementStack { slots };
        assert(copy@ =~= self@);
        copy
    }

    /// Puts the stack back into the state that `snapshot` recorded.
    pub fn restore(&mut self, snapshot: ElementStack)
        ensures
            final(self)@ == snapshot@,
    {
        self.slots = snapshot.slots;
    }
}

impl Clone for ElementStack {
    fn clone(&self) -> (copy: ElementStack)
        ensures
            copy@ == self@,
    {
        self.snapshot()
    }
}

} // verus!
