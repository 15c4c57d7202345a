//! Blocks: maximal runs of instructions that begin at a tag, or at the start
//! of the stream, and end at an instruction that leaves for good, or before
//! the next tag.

use vstd::prelude::*;
use crate::bindings::tag_number;
use crate::element::{action_at, stack_after, Action, Element};
use crate::error::{Error, Failure};
use crate::instruction::{Instruction, InstructionName, InstructionView};
use crate::key::{CodeType, FunctionBlockKey, Tag};
use crate::numeral::{is_numeral, numeral_value};
use crate::predecessors::{Edge, PredecessorSet};
use crate::stack::{ElementStack, Slot, SlotView};

verus! {

/// Where the elements of the block begin that `stream` opens: behind the tag
/// marker, where the stream begins with one.
pub open spec fn body_start(stream: Seq<InstructionView>) -> int {
    if stream.len() > 0 && stream[0].name == InstructionName::Tag {
        1
    } else {
        0
    }
}

/// Where a run of elements ends that begins at `from`: behind the first
/// instruction that seals a block, or before the first tag marker, or at the
/// end of the stream, whichever comes first.
pub open spec fn run_end(stream: Seq<InstructionView>, from: int) -> int
    decreases stream.len() - from,
{
    if from < 0 || from >= stream.len() {
        from
    } else if stream[from].name == InstructionName::Tag {
        from
    } else if stream[from].name.is_terminator() {
        from + 1
    } else {
        run_end(stream, from + 1)
    }
}

/// How many instructions of `stream` the block takes that the stream opens.
pub open spec fn block_end(stream: Seq<InstructionView>) -> int {
    run_end(stream, body_start(stream))
}

/// The tag of the block that `stream` opens, or why there is none: the number
/// on its tag marker, and zero where it begins with no marker.
pub open spec fn opening_tag(stream: Seq<InstructionView>) -> Result<nat, Error> {
    if stream.len() == 0 {
        Err(Error::EmptyInput)
    } else if stream[0].name != InstructionName::Tag {
        Ok(0)
    } else {
        match stream[0].value {
            None => Err(Error::MissingTag),
            Some(text) => match tag_number(text) {
                Some(number) => Ok(number),
                None => Err(Error::InvalidTag),
            },
        }
    }
}

/// Whether the stream begins with a tag marker whose operand is a canonical
/// decimal numeral.
pub open spec fn marked_by_numeral(stream: Seq<InstructionView>) -> bool {
    &&& stream.len() > 0
    &&& stream[0].name == InstructionName::Tag
    &&& stream[0].value is Some
    &&& is_numeral(stream[0].value.unwrap())
}

/// The instructions of a run of elements.
pub open spec fn instructions_of(elements: Seq<Element>) -> Seq<InstructionView> {
    Seq::new(elements.len(), |k: int| elements[k].instruction@)
}

/// The stack after the instructions were replayed on it in order, or `None`
/// where one of them found fewer slots than it needs.
pub open spec fn replayed(instructions: Seq<InstructionView>, stack: Seq<SlotView>) -> Option<
    Seq<SlotView>,
>
    decreases instructions.len(),
{
    if instructions.len() == 0 {
        Some(stack)
    } else {
        match replayed(instructions.drop_last(), stack) {
            Some(before) => stack_after(instructions.last(), before),
            None => None,
        }
    }
}

/// The depth of the stack before the instruction at `index`, in a replay that
/// gets that far.
pub open spec fn depth_before(
    instructions: Seq<InstructionView>,
    stack: Seq<SlotView>,
    index: int,
) -> nat {
    match replayed(instructions.take(index), stack) {
        Some(before) => before.len(),
        None => 0,
    }
}

/// What has to be emitted for each of the instructions, in a replay that
/// begins on `stack`.
pub open spec fn actions(instructions: Seq<InstructionView>, stack: Seq<SlotView>) -> Seq<Action> {
    Seq::new(
        instructions.len(),
        |k: int| action_at(instructions[k].name, depth_before(instructions, stack, k) as usize),
    )
}

/// A replay that fails on the first `count` instructions fails on all of them.
pub proof fn lemma_replay_prefix(
    instructions: Seq<InstructionView>,
    stack: Seq<SlotView>,
    count: int,
)
    requires
        0 <= count <= instructions.len(),
        replayed(instructions.take(count), stack) is None,
    ensures
        replayed(instructions, stack) is None,
    decreases instructions.len(),
{
    if count == instructions.len() {
        assert(instructions.take(count) =~= instructions);
    } else {
        assert(instructions.drop_last().take(count) =~= instructions.take(count));
        lemma_replay_prefix(instructions.drop_last(), stack, count);
    }
}

/// Replaying one run of instructions and then another is replaying the two
/// as one.
pub proof fn lemma_replay_split(
    first: Seq<InstructionView>,
    second: Seq<InstructionView>,
    stack: Seq<SlotView>,
)
    ensures
        replayed(first + second, stack) == match replayed(first, stack) {
            Some(between) => replayed(second, between),
            None => None,
        },
    decreases second.len(),
{
    if second.len() == 0 {
        assert(first + second =~= first);
    } else {
        assert((first + second).drop_last() =~= first + second.drop_last());
        assert((first + second).last() == second.last());
        lemma_replay_split(first, second.drop_last(), stack);
    }
}

/// A replay fails where the first instruction needs more slots than the
/// stack holds at the start: nothing is put in place of what is missing.
pub proof fn lemma_underflow_detected(instructions: Seq<InstructionView>, stack: Seq<SlotView>)
    requires
        instructions.len() > 0,
        instructions[0].name.inputs() > stack.len(),
    ensures
        replayed(instructions, stack) is None,
{
    let first = instructions.take(1);
    assert(first.drop_last() =~= Seq::<InstructionView>::empty());
    assert(first.last() == instructions[0]);
    assert(replayed(first.drop_last(), stack) == Some(stack));
    assert(replayed(first, stack) is None);
    lemma_replay_prefix(instructions, stack, 1);
}

/// The text of the constant that a jump takes as its target, where the top
/// slot before the jump is a constant. A jump whose target is no constant
/// names no block that could be known here.
pub open spec fn jump_target(instruction: InstructionView, before: Seq<SlotView>) -> Option<
    Seq<char>,
> {
    if instruction.name.is_jump() && before.len() > 0 {
        match before.last() {
            SlotView::Constant(text) => Some(text),
            _ => None,
        }
    } else {
        None
    }
}

/// A jump that names a block: the index of the jump among the elements, and
/// the tag that it names.
pub type Jump = (nat, nat);

/// The jumps among the instructions that name a block, in program order, in
/// a replay that begins on `stack`; or the first failure and the index of
/// the instruction that met it: an instruction that finds fewer slots than
/// it needs, or a jump whose constant target is no number.
pub open spec fn jump_tags(instructions: Seq<InstructionView>, stack: Seq<SlotView>) -> Result<
    Seq<Jump>,
    (Error, nat),
>
    decreases instructions.len(),
{
    if instructions.len() == 0 {
        Ok(Seq::empty())
    } else {
        let last = (instructions.len() - 1) as nat;
        match (jump_tags(instructions.drop_last(), stack), replayed(instructions.drop_last(), stack)) {
            (Err(failure), _) => Err(failure),
            (Ok(jumps), None) => Err((Error::StackUnderflow, last)),
            (Ok(jumps), Some(before)) => if stack_after(instructions.last(), before) is None {
                Err((Error::StackUnderflow, last))
            } else {
                match jump_target(instructions.last(), before) {
                    None => Ok(jumps),
                    Some(text) => match tag_number(text) {
                        Some(number) => Ok(jumps.push((last, number))),
                        None => Err((Error::InvalidTag, last)),
                    },
                }
            },
        }
    }
}

/// Whether control runs on into the next block: the instructions do not end
/// with one that leaves for good.
pub open spec fn falls_through(instructions: Seq<InstructionView>) -> bool {
    instructions.len() == 0 || !instructions.last().name.is_terminator()
}

/// A list of jumps as contracts see it.
pub open spec fn jumps_of(jumps: Seq<(usize, Tag)>) -> Seq<Jump> {
    Seq::new(jumps.len(), |k: int| (jumps[k].0 as nat, jumps[k].1@))
}

/// Whether the replay gets past the first `index` instructions and fails at
/// the next.
pub open spec fn underflows_at(
    instructions: Seq<InstructionView>,
    stack: Seq<SlotView>,
    index: int,
) -> bool {
    &&& 0 <= index < instructions.len()
    &&& replayed(instructions.take(index), stack) is Some
    &&& replayed(instructions.take(index + 1), stack) is None
}

/// Jumps that fail within the first `count` instructions fail within all of
/// them, in the same way.
pub proof fn lemma_jump_tags_prefix(
    instructions: Seq<InstructionView>,
    stack: Seq<SlotView>,
    count: int,
)
    requires
        0 <= count <= instructions.len(),
        jump_tags(instructions.take(count), stack) is Err,
    ensures
        jump_tags(instructions, stack) == jump_tags(instructions.take(count), stack),
    decreases instructions.len(),
{
    if count == instructions.len() {
        assert(instructions.take(count) =~= instructions);
    } else {
        assert(instructions.drop_last().take(count) =~= instructions.take(count));
        lemma_jump_tags_prefix(instructions.drop_last(), stack, count);
    }
}

/// Where the jumps of a replay are all found, the replay itself succeeds.
pub proof fn lemma_jump_tags_replayed(instructions: Seq<InstructionView>, stack: Seq<SlotView>)
    requires
        jump_tags(instructions, stack) is Ok,
    ensures
        replayed(instructions, stack) is Some,
    decreases instructions.len(),
{
    if instructions.len() > 0 {
        lemma_jump_tags_replayed(instructions.drop_last(), stack);
    }
}

/// One step of what the code generator is handed for a block.
#[derive(Debug, Clone, Copy, PartialEq, Eq, Hash, Structural)]
pub enum Emission {
    /// Make `code_type` the region that is written to.
    SelectRegion { code_type: CodeType },
    /// Emit `action` for the element at `index`.
    Element { index: usize, action: Action },
}

/// What the code generator is handed for a block of `code_type` whose
/// elements ask for `actions`: first the region, then the elements in order.
pub open spec fn emission_plan(code_type: CodeType, actions: Seq<Action>) -> Seq<Emission> {
    Seq::new(
        actions.len() + 1,
        |k: int|
            if k == 0 {
                Emission::SelectRegion { code_type }
            } else {
                Emission::Element { index: (k - 1) as usize, action: actions[k - 1] }
            },
    )
}

/// The Ethereal IR block.
#[derive(Debug)]
pub struct Block {
    /// The Solidity compiler version.
    pub solc_version: semver::Version,
    /// The block key.
    pub key: FunctionBlockKey,
    /// The block instance. Unset until duplicates of the key are told apart.
    pub instance: Option<usize>,
    /// The block elements relevant to the stack consistency.
    pub elements: Vec<Element>,
    /// The block predecessors.
    pub predecessors: PredecessorSet,
    /// The initial stack state.
    pub initial_stack: ElementStack,
    /// The stack.
    pub stack: ElementStack,
    /// The extra block hashes for alternative routes.
    pub extra_hashes: Vec<md5::Digest>,
}

/// Replays `elements` on `stack` and lists what has to be emitted for them.
fn replay_elements(elements: &Vec<Element>, stack: &mut ElementStack) -> (run: Result<
    Vec<Action>,
    Failure,
>)
    ensures
        match run {
            Ok(list) => replayed(instructions_of(elements@), old(stack)@) == Some(final(stack)@)
                && list@ == actions(instructions_of(elements@), old(stack)@),
            Err(failure) => failure.error == Error::StackUnderflow && failure.block is None
                && failure.element is Some && underflows_at(
                instructions_of(elements@),
                old(stack)@,
                failure.element.unwrap() as int,
            ) && replayed(instructions_of(elements@), old(stack)@) is None,
        },
{
    let ghost stream = instructions_of(elements@);
    let ghost entry = stack@;
    let count: usize = elements.len();
    let mut list: Vec<Action> = Vec::new();
    let mut index: usize = 0;
    assert(stream.take(0) =~= Seq::<InstructionView>::empty());
    while index < count
        invariant
            count == elements@.len(),
            stream == instructions_of(elements@),
            entry == old(stack)@,
            index <= count,
            replayed(stream.take(index as int), entry) == Some(stack@),
            list@.len() == index,
            forall|k: int|
                0 <= k < index ==> list@[k] == action_at(
                    stream[k].name,
                    depth_before(stream, entry, k) as usize,
                ),
        decreases count - index,
    {
        proof {
            assert(stream.take(index + 1).drop_last() =~= stream.take(index as int));
            assert(stream.take(index + 1).last() == stream[index as int]);
        }
        match elements[index].apply(stack) {
            Ok(action) => {
                list.push(action);
            },
            Err(error) => {
                proof {
                    assert(replayed(stream.take(index + 1), entry) is None);
                    lemma_replay_prefix(stream, entry, index + 1);
                }
                return Err(Failure { error, block: None, element: Some(index) });
            },
        }
        index += 1;
    }
    assert(stream.take(count as int) =~= stream);
    assert(list@ =~= actions(stream, entry));
    Ok(list)
}

impl Block {
    /// The elements vector initial capacity.
    pub const ELEMENTS_VECTOR_DEFAULT_CAPACITY: usize = 64;

    /// The predecessors set initial capacity.
    pub const PREDECESSORS_HASHSET_DEFAULT_CAPACITY: usize = 4;

    /// The instructions of the block, in program order.
    pub open spec fn instructions(&self) -> Seq<InstructionView> {
        instructions_of(self.elements@)
    }

    /// Whether the block is well formed: its predecessor set is.
    pub open spec fn wf(&self) -> bool {
        self.predecessors.wf()
    }

    /// The pair that names the block among the predecessors of another: its
    /// key, and its instance index, zero while none is set.
    pub open spec fn edge(&self) -> Edge {
        (
            self.key@,
            match self.instance {
                Some(instance) => instance,
                None => 0,
            },
        )
    }

    /// Assembles a block from the sequence of instructions.
    ///
    /// Takes a tag marker at the start of `slice` as the tag of the block;
    /// a block that begins with no marker gets tag zero. Then takes
    /// instructions as elements up to and including the first one that ends
    /// control flow for good (`RETURN`, `REVERT`, `STOP`, `INVALID`, `JUMP`),
    /// or up to the next tag marker or the end of `slice`. Returns the block
    /// and the number of instructions taken.
    pub fn try_from_instructions(
        solc_version: semver::Version,
        code_type: CodeType,
        slice: &[Instruction],
    ) -> (built: Result<(Block, usize), Error>)
        ensures
            match built {
                Ok((block, consumed)) => {
                    let stream = Instruction::views(slice@);
                    &&& opening_tag(stream) == Ok::<nat, Error>(block.key.tag@)
                    &&& block.key.code_type == code_type
                    &&& block.solc_version == solc_version
                    &&& block.instance is None
                    &&& consumed == block_end(stream)
                    &&& 1 <= consumed <= slice@.len()
                    &&& block.elements@.len() == consumed - body_start(stream)
                    &&& block.instructions() == stream.subrange(body_start(stream), consumed as int)
                    &&& forall|k: int|
                        0 <= k < block.elements@.len() ==> (#[trigger] block.elements@[k]).solc_version
                            == solc_version
                    &&& block.wf()
                    &&& block.predecessors@ == Set::<Edge>::empty()
                    &&& block.initial_stack@ == Seq::<SlotView>::empty()
                    &&& block.stack@ == Seq::<SlotView>::empty()
                    &&& block.extra_hashes@ == Seq::<md5::Digest>::empty()
                },
                Err(error) => opening_tag(Instruction::views(slice@)) == Err::<nat, Error>(error),
            },
            marked_by_numeral(Instruction::views(slice@)) ==> built is Ok && built.unwrap().0.key.tag@
                == numeral_value(Instruction::views(slice@)[0].value.unwrap()),
            slice@.len() > 0 && slice@[0].name != InstructionName::Tag ==> built is Ok
                && built.unwrap().0.key.tag@ == 0,
    {
        let ghost stream = Instruction::views(slice@);
        let length: usize = slice.len();
        if length == 0 {
            return Err(Error::EmptyInput);
        }
        let mut cursor: usize = 0;
        let tag = match slice[0].name {
            InstructionName::Tag => {
                let tag = match &slice[0].value {
                    None => {
                        return Err(Error::MissingTag);
                    },
                    Some(text) => match Tag::parse(text.as_str()) {
                        Some(tag) => tag,
                        None => {
                            return Err(Error::InvalidTag);
                        },
                    },
                };
                cursor = 1;
                tag
            },
            _ => Tag::zero(),
        };
        let start: usize = cursor;
        let mut elements: Vec<Element> = Vec::with_capacity(Self::ELEMENTS_VECTOR_DEFAULT_CAPACITY);
        let mut sealed: bool = false;
        while cursor < length && !sealed
            invariant
                length == slice@.len(),
                stream == Instruction::views(slice@),
                start == body_start(stream),
                start <= cursor <= length,
                elements@.len() == cursor - start,
                forall|k: int|
                    0 <= k < elements@.len() ==> (#[trigger] elements@[k]).instruction@ == stream[start
                        + k],
                forall|k: int|
                    0 <= k < elements@.len() ==> (#[trigger] elements@[k]).solc_version
                        == solc_version,
                !sealed ==> run_end(stream, start as int) == run_end(stream, cursor as int),
                sealed ==> run_end(stream, start as int) == cursor,
                sealed ==> cursor > start || stream[cursor as int].name == InstructionName::Tag,
            decreases length - cursor, if sealed { 0int } else { 1int },
        {
            let name = slice[cursor].name;
            if name == InstructionName::Tag {
                sealed = true;
            } else {
                elements.push(Element::new(solc_version.clone(), slice[cursor].clone()));
                cursor += 1;
                sealed = name.ends_block();
            }
        }
        let block = Block {
            solc_version,
            key: FunctionBlockKey::new(code_type, tag),
            instance: None,
            elements,
            predecessors: PredecessorSet::with_capacity(
                Self::PREDECESSORS_HASHSET_DEFAULT_CAPACITY,
            ),
            initial_stack: ElementStack::new(),
            stack: ElementStack::new(),
            extra_hashes: Vec::new(),
        };
        assert(block.instructions() =~= stream.subrange(start as int, cursor as int));
        Ok((block, cursor))
    }

    /// Inserts a predecessor tag.
    pub fn insert_predecessor(&mut self, key: FunctionBlockKey, instance: usize)
        requires
            old(self).wf(),
        ensures
            final(self).wf(),
            final(self).predecessors@ == old(self).predecessors@.insert((key@, instance)),
            final(self).predecessors.ordered() == if old(self).predecessors@.contains(
                (key@, instance),
            ) {
                old(self).predecessors.ordered()
            } else {
                old(self).predecessors.ordered().push((key@, instance))
            },
            final(self).solc_version == old(self).solc_version,
            final(self).key == old(self).key,
            final(self).instance == old(self).instance,
            final(self).elements == old(self).elements,
            final(self).initial_stack == old(self).initial_stack,
            final(self).stack == old(self).stack,
            final(self).extra_hashes == old(self).extra_hashes,
    {
        self.predecessors.insert(key, instance);
    }

    /// Replays the elements on a copy of the initial stack and records the
    /// stack that they leave. Fails at the first element that finds fewer
    /// slots than it needs, and then leaves the block as it is.
    pub fn replay(&mut self) -> (done: Result<(), Failure>)
        ensures
            match done {
                Ok(()) => replayed(old(self).instructions(), old(self).initial_stack@) == Some(
                    final(self).stack@,
                ),
                Err(failure) => failure.error == Error::StackUnderflow && failure.block is None
                    && failure.element is Some && underflows_at(
                    old(self).instructions(),
                    old(self).initial_stack@,
                    failure.element.unwrap() as int,
                ) && replayed(old(self).instructions(), old(self).initial_stack@) is None
                    && final(self).stack == old(self).stack,
            },
            final(self).solc_version == old(self).solc_version,
            final(self).key == old(self).key,
            final(self).instance == old(self).instance,
            final(self).elements == old(self).elements,
            final(self).predecessors == old(self).predecessors,
            final(self).initial_stack == old(self).initial_stack,
            final(self).extra_hashes == old(self).extra_hashes,
    {
        let mut stack = self.initial_stack.snapshot();
        match replay_elements(&self.elements, &mut stack) {
            Ok(_) => {
                self.stack = stack;
                Ok(())
            },
            Err(failure) => Err(failure),
        }
    }

    /// Whether control runs on into the next block: the last element does not
    /// leave for good, or there is no element.
    pub fn runs_on(&self) -> (open: bool)
        ensures
            open == falls_through(self.instructions()),
    {
        let count: usize = self.elements.len();
        if count == 0 {
            true
        } else {
            !self.elements[count - 1].instruction.name.ends_block()
        }
    }

    /// The jumps of the block that name a block, in program order: for each
    /// `JUMP` and `JUMPI` that finds a constant on top of the stack, the
    /// index of the element and the tag that the constant denotes. Fails at
    /// the first element that finds fewer slots than it needs, or whose
    /// constant target is no number.
    pub fn jump_targets(&self) -> (found: Result<Vec<(usize, Tag)>, Failure>)
        ensures
            match found {
                Ok(jumps) => jump_tags(self.instructions(), self.initial_stack@) == Ok::<
                    Seq<Jump>,
                    (Error, nat),
                >(jumps_of(jumps@)),
                Err(failure) => failure.block is None && failure.element is Some && jump_tags(
                    self.instructions(),
                    self.initial_stack@,
                ) == Err::<Seq<Jump>, (Error, nat)>(
                    (failure.error, failure.element.unwrap() as nat),
                ),
            },
    {
        let ghost stream = self.instructions();
        let ghost entry = self.initial_stack@;
        let mut stack = self.initial_stack.snapshot();
        let count: usize = self.elements.len();
        let mut jumps: Vec<(usize, Tag)> = Vec::new();
        let mut index: usize = 0;
        assert(stream.take(0) =~= Seq::<InstructionView>::empty());
        assert(jumps_of(jumps@) =~= Seq::<Jump>::empty());
        while index < count
            invariant
                count == self.elements@.len(),
                stream == self.instructions(),
                entry == self.initial_stack@,
                index <= count,
                replayed(stream.take(index as int), entry) == Some(stack@),
                jump_tags(stream.take(index as int), entry) == Ok::<Seq<Jump>, (Error, nat)>(
                    jumps_of(jumps@),
                ),
            decreases count - index,
        {
            proof {
                assert(stream.take(index + 1).drop_last() =~= stream.take(index as int));
                assert(stream.take(index + 1).last() == stream[index as int]);
            }
            let element = &self.elements[index];
            let depth: usize = stack.len();
            let mut target: Option<String> = None;
            if element.instruction.name.jumps() && depth > 0 {
                if let Slot::Constant(text) = &stack.slots[depth - 1] {
                    target = Some(text.clone());
                }
            }
            assert(match target {
                Some(text) => jump_target(stream[index as int], stack@) == Some(text@),
                None => jump_target(stream[index as int], stack@) is None,
            });
            if let Err(error) = element.apply(&mut stack) {
                proof {
                    assert(jump_tags(stream.take(index + 1), entry) == Err::<
                        Seq<Jump>,
                        (Error, nat),
                    >((error, index as nat)));
                    lemma_jump_tags_prefix(stream, entry, index + 1);
                }
                return Err(Failure { error, block: None, element: Some(index) });
            }
            if let Some(text) = target {
                match Tag::parse(text.as_str()) {
                    Some(tag) => {
                        assert(jumps_of(jumps@.push((index, tag))) =~= jumps_of(jumps@).push(
                            (index as nat, tag@),
                        ));
                        jumps.push((index, tag));
                    },
                    None => {
                        proof {
                            assert(jump_tags(stream.take(index + 1), entry) == Err::<
                                Seq<Jump>,
                                (Error, nat),
                            >((Error::InvalidTag, index as nat)));
                            lemma_jump_tags_prefix(stream, entry, index + 1);
                        }
                        return Err(
                            Failure { error: Error::InvalidTag, block: None, element: Some(index) },
                        );
                    },
                }
            }
            index += 1;
        }
        assert(stream.take(count as int) =~= stream);
        Ok(jumps)
    }

    /// What the code generator is to be handed for the block, in order: the
    /// region of the block, then what each element asks for where the stack
    /// is the one that the elements before it left of the initial stack.
    /// Fails at the first element that finds fewer slots than it needs.
    pub fn emission(&self) -> (plan: Result<Vec<Emission>, Failure>)
        ensures
            match plan {
                Ok(steps) => replayed(self.instructions(), self.initial_stack@) is Some && steps@
                    == emission_plan(
                    self.key.code_type,
                    actions(self.instructions(), self.initial_stack@),
                ),
                Err(failure) => failure.error == Error::StackUnderflow && failure.block is None
                    && failure.element is Some && underflows_at(
                    self.instructions(),
                    self.initial_stack@,
                    failure.element.unwrap() as int,
                ) && replayed(self.instructions(), self.initial_stack@) is None,
            },
    {
        let mut stack = self.initial_stack.snapshot();
        let list = match replay_elements(&self.elements, &mut stack) {
            Ok(list) => list,
            Err(failure) => {
                return Err(failure);
            },
        };
        let count: usize = list.len();
        let mut steps: Vec<Emission> = Vec::new();
        steps.push(Emission::SelectRegion { code_type: self.key.code_type });
        let mut index: usize = 0;
        while index < count
            invariant
                count == list@.len(),
                index <= count,
                steps@.len() == index + 1,
                forall|k: int|
                    0 <= k <= index ==> steps@[k] == emission_plan(self.key.code_type, list@)[k],
            decreases count - index,
        {
            steps.push(Emission::Element { index, action: list[index] });
            index += 1;
        }
        assert(steps@ =~= emission_plan(self.key.code_type, list@));
        Ok(steps)
    }
}

impl Clone for Block {
    fn clone(&self) -> (copy: Block)
        ensures
            copy.solc_version == self.solc_version,
            copy.key == self.key,
            copy.instance == self.instance,
            copy.elements@.len() == self.elements@.len(),
            forall|k: int|
                0 <= k < self.elements@.len() ==> (#[trigger] copy.elements@[k])@
                    == self.elements@[k]@,
            copy.instructions() == self.instructions(),
            copy.predecessors@ == self.predecessors@,
            copy.predecessors.ordered() == self.predecessors.ordered(),
            copy.wf() == self.wf(),
            copy.initial_stack@ == self.initial_stack@,
            copy.stack@ == self.stack@,
            copy.extra_hashes@ == self.extra_hashes@,
    {
        let count: usize = self.elements.len();
        let mut elements: Vec<Element> = Vec::with_capacity(count);
        let mut index: usize = 0;
        while index < count
            invariant
                count == self.elements@.len(),
                index <= count,
                elements@.len() == index,
                forall|k: int| 0 <= k < index ==> (#[trigger] elements@[k])@ == self.elements@[k]@,
            decreases count - index,
        {
            elements.push(self.elements[index].clone());
            index += 1;
        }
        let total: usize = self.extra_hashes.len();
        let mut extra_hashes: Vec<md5::Digest> = Vec::with_capacity(total);
        let mut place: usize = 0;
        while place < total
            invariant
                total == self.extra_hashes@.len(),
                place <= total,
                extra_hashes@.len() == place,
                forall|k: int| 0 <= k < place ==> extra_hashes@[k] == self.extra_hashes@[k],
            decreases total - place,
        {
            extra_hashes.push(self.extra_hashes[place]);
            place += 1;
        }
        let copy = Block {
            solc_version: self.solc_version.clone(),
            key: self.key.clone(),
            instance: self.instance,
            elements,
            predecessors: self.predecessors.clone(),
            initial_stack: self.initial_stack.snapshot(),
            stack: self.stack.snapshot(),
            extra_hashes,
        };
        assert(copy.instructions() =~= self.instructions());
        assert(copy.extra_hashes@ =~= self.extra_hashes@);
        copy
    }
}

} // verus!
