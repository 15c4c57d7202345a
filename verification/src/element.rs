//! Elements: one instruction each, with what it does to the symbolic stack
//! and what has to be emitted for it.

use vstd::prelude::*;
use crate::error::Error;
use crate::instruction::{Instruction, InstructionName, InstructionView};
use crate::stack::{duplicated, swapped, ElementStack, Slot, SlotView};

verus! {

/// What has to be emitted for one element. The symbolic stack stands for a
/// bank of registers, numbered from the bottom of the stack.
#[derive(Debug, Clone, Copy, PartialEq, Eq, Hash, Structural)]
pub enum Action {
    /// Write the operand of the instruction to `target`.
    Constant { target: usize },
    /// Copy `source` to `target`.
    Copy { source: usize, target: usize },
    /// Exchange `upper` and `lower`.
    Exchange { upper: usize, lower: usize },
    /// Apply the instruction to the `inputs` registers from `base` on, and
    /// write its `outputs` results from `base` on.
    Operate { name: InstructionName, base: usize, inputs: usize, outputs: usize },
}

/// `count` slots of which nothing is known.
pub open spec fn unknowns(count: nat) -> Seq<SlotView> {
    Seq::new(count, |i: int| SlotView::Unknown)
}

/// The slot that `PUSH` puts on the stack.
pub open spec fn pushed(value: Option<Seq<char>>) -> SlotView {
    match value {
        Some(text) => SlotView::Constant(text),
        None => SlotView::Unknown,
    }
}

/// The stack as the instruction leaves it, or `None` where the stack holds
/// fewer slots than the instruction needs.
pub open spec fn stack_after(instruction: InstructionView, stack: Seq<SlotView>) -> Option<
    Seq<SlotView>,
> {
    let name = instruction.name;
    if stack.len() < name.inputs() {
        None
    } else if name == InstructionName::PUSH {
        Some(stack.push(pushed(instruction.value)))
    } else if name.dup_depth() is Some {
        Some(duplicated(stack, (name.dup_depth().unwrap() - 1) as nat))
    } else if name.swap_depth() is Some {
        Some(swapped(stack, name.swap_depth().unwrap()))
    } else {
        Some(stack.take(stack.len() - name.inputs()) + unknowns(name.outputs()))
    }
}

/// What has to be emitted for the instruction where the stack holds `depth`
/// slots before it.
pub open spec fn action_at(name: InstructionName, depth: usize) -> Action
    recommends
        name.inputs() <= depth,
{
    if name == InstructionName::PUSH {
        Action::Constant { target: depth }
    } else if name.dup_depth() is Some {
        Action::Copy { source: (depth - name.dup_depth().unwrap()) as usize, target: depth }
    } else if name.swap_depth() is Some {
        Action::Exchange {
            upper: (depth - 1) as usize,
            lower: (depth - 1 - name.swap_depth().unwrap()) as usize,
        }
    } else {
        Action::Operate {
            name,
            base: (depth - name.inputs()) as usize,
            inputs: name.inputs() as usize,
            outputs: name.outputs() as usize,
        }
    }
}

/// An element as contracts see it.
pub struct ElementView {
    pub solc_version: semver::Version,
    pub instruction: InstructionView,
}

/// One instruction of a block, with the compiler version that it was
/// written for.
#[derive(Debug)]
pub struct Element {
    /// The Solidity compiler version.
    pub solc_version: semver::Version,
    /// The instruction.
    pub instruction: Instruction,
}

impl View for Element {
    type V = ElementView;

    open spec fn view(&self) -> ElementView {
        ElementView { solc_version: self.solc_version, instruction: self.instruction@ }
    }
}

impl Element {
    /// An element for `instruction`.
    pub fn new(solc_version: semver::Version, instruction: Instruction) -> (element: Element)
        ensures
            element.solc_version == solc_version,
            element.instruction == instruction,
    {
        Element { solc_version, instruction }
    }

    /// The change in the depth of the stack that the element causes.
    pub fn stack_delta(&self) -> (delta: i32)
        ensures
            delta == self.instruction.name.stack_delta(),
    {
        let taken: usize = self.instruction.name.input_count();
        let left: usize = self.instruction.name.output_count();
        left as i32 - taken as i32
    }

    /// Replays the element on `stack` and says what has to be emitted for
    /// it. Fails where the stack holds fewer slots than the instruction
    /// needs, and then leaves the stack as it is.
    pub fn apply(&self, stack: &mut ElementStack) -> (applied: Result<Action, Error>)
        ensures
            match applied {
                Ok(action) => stack_after(self.instruction@, old(stack)@) == Some(final(stack)@)
                    && action == action_at(self.instruction.name, old(stack)@.len() as usize),
                Err(error) => error == Error::StackUnderflow && stack_after(
                    self.instruction@,
                    old(stack)@,
                ) is None && final(stack)@ == old(stack)@,
            },
    {
        let name = self.instruction.name;
        let depth: usize = stack.len();
        let taken: usize = name.input_count();
        if depth < taken {
            return Err(Error::StackUnderflow);
        }
        if name == InstructionName::PUSH {
            let slot = match &self.instruction.value {
                Some(text) => Slot::Constant(text.clone()),
                None => Slot::Unknown,
            };
            stack.push(slot);
            return Ok(Action::Constant { target: depth });
        }
        if let Some(reach) = name.duplicated() {
            let copied = stack.duplicate(reach - 1);
            assert(copied is Ok);
            return Ok(Action::Copy { source: depth - reach, target: depth });
        }
        if let Some(reach) = name.swapped() {
            let exchanged = stack.swap(reach);
            assert(exchanged is Ok);
            return Ok(Action::Exchange { upper: depth - 1, lower: depth - 1 - reach });
        }
        let left: usize = name.output_count();
        stack.slots.truncate(depth - taken);
        let mut made: usize = 0;
        while made < left
            invariant
                made <= left,
                taken <= depth,
                depth == old(stack)@.len(),
                stack@ == old(stack)@.take(depth - taken) + unknowns(made as nat),
            decreases left - made,
        {
            stack.push(Slot::Unknown);
            made += 1;
            assert(stack@ =~= old(stack)@.take(depth - taken) + unknowns(made as nat));
        }
        Ok(Action::Operate { name, base: depth - taken, inputs: taken, outputs: left })
    }
}

impl Clone for Element {
    fn clone(&self) -> (copy: Element)
        ensures
            copy@ == self@,
    {
        Element { solc_version: self.solc_version.clone(), instruction: self.instruction.clone() }
    }
}

} // verus!
