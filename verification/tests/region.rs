use compiler_solidity::block::{Block, Emission};
use compiler_solidity::element::Action;
use compiler_solidity::error::{Error, Failure};
use compiler_solidity::instruction::{Instruction, InstructionName};
use compiler_solidity::key::{CodeType, FunctionBlockKey, Tag};
use compiler_solidity::region::Region;
use compiler_solidity::stack::{ElementStack, Slot};

fn version() -> semver::Version {
    semver::Version::new(0, 8, 19)
}

fn plain(name: InstructionName) -> Instruction {
    Instruction::new(name, None)
}

fn with(name: InstructionName, value: &str) -> Instruction {
    Instruction::new(name, Some(value.to_owned()))
}

fn key(text: &str) -> FunctionBlockKey {
    FunctionBlockKey::new(CodeType::Runtime, Tag::parse(text).expect("a number"))
}

fn at(error: Error, block: usize, element: usize) -> Failure {
    Failure { error, block: Some(block), element: Some(element) }
}

fn in_block(error: Error, block: usize) -> Failure {
    Failure { error, block: Some(block), element: None }
}

fn region(stream: &[Instruction]) -> Region {
    Region::try_from_instructions(version(), CodeType::Runtime, stream).expect("a region")
}

fn names(block: &Block) -> Vec<InstructionName> {
    block.elements.iter().map(|element| element.instruction.name).collect()
}

#[test]
fn stream_of_two_tags_yields_two_blocks() {
    let stream = vec![
        with(InstructionName::Tag, "1"),
        with(InstructionName::PUSH, "5"),
        with(InstructionName::PUSH, "3"),
        plain(InstructionName::ADD),
        with(InstructionName::Tag, "2"),
        plain(InstructionName::RETURN),
    ];
    let region = region(&stream);
    assert_eq!(region.code_type(), CodeType::Runtime);
    assert_eq!(region.len(), 2);
    let blocks = region.blocks();
    assert_eq!(blocks[0].key, key("1"));
    assert_eq!(
        names(&blocks[0]),
        vec![InstructionName::PUSH, InstructionName::PUSH, InstructionName::ADD]
    );
    assert_eq!(blocks[0].elements[0].instruction.value.as_deref(), Some("5"));
    assert_eq!(blocks[0].elements[1].instruction.value.as_deref(), Some("3"));
    assert_eq!(blocks[0].elements[2].instruction.value, None);
    assert!(blocks[0].runs_on());
    assert!(blocks[0].predecessors.is_empty());
    assert_eq!(blocks[1].key, key("2"));
    assert_eq!(names(&blocks[1]), vec![InstructionName::RETURN]);
    assert!(blocks[1].predecessors.is_empty());
    assert_eq!(blocks[0].instance, None);
    assert_eq!(blocks[1].instance, None);
}

#[test]
fn jump_to_a_tag_that_no_block_carries_fails() {
    let stream = vec![with(InstructionName::PUSH, "1"), plain(InstructionName::JUMP)];
    let mut region = region(&stream);
    assert_eq!(region.len(), 1);
    assert_eq!(region.blocks()[0].key, FunctionBlockKey::new(CodeType::Runtime, Tag::zero()));
    assert_eq!(region.link(), Err(at(Error::DanglingPredecessor, 0, 1)));
    assert!(region.blocks()[0].predecessors.is_empty());
    assert!(region.blocks()[0].stack.is_empty());
}

#[test]
fn every_instruction_lands_in_one_block() {
    let stream = vec![
        plain(InstructionName::CALLER),
        plain(InstructionName::STOP),
        with(InstructionName::Tag, "1"),
        with(InstructionName::Tag, "2"),
        plain(InstructionName::CALLER),
        plain(InstructionName::POP),
        plain(InstructionName::INVALID),
        with(InstructionName::Tag, "3"),
        with(InstructionName::PUSH, "1"),
        plain(InstructionName::JUMP),
        with(InstructionName::Tag, "4"),
    ];
    let mut offset = 0;
    let mut sizes = Vec::new();
    while offset < stream.len() {
        let (_, consumed) =
            Block::try_from_instructions(version(), CodeType::Runtime, &stream[offset..])
                .expect("a block");
        assert!(consumed >= 1);
        sizes.push(consumed);
        offset += consumed;
    }
    assert_eq!(offset, stream.len());
    assert_eq!(sizes, vec![2, 1, 4, 3, 1]);

    let region = region(&stream);
    assert_eq!(region.len(), 5);
    let markers = stream.iter().filter(|one| one.name == InstructionName::Tag).count();
    let elements: usize = region.blocks().iter().map(|block| block.elements.len()).sum();
    assert_eq!(elements + markers, stream.len());
    let mut rebuilt = Vec::new();
    for block in region.blocks().iter() {
        rebuilt.extend(names(block));
    }
    let expected: Vec<InstructionName> = stream
        .iter()
        .map(|one| one.name)
        .filter(|name| *name != InstructionName::Tag)
        .collect();
    assert_eq!(rebuilt, expected);
}

#[test]
fn blocks_end_with_a_terminator_or_before_a_tag_or_with_the_stream() {
    let stream = vec![
        plain(InstructionName::CALLER),
        plain(InstructionName::REVERT),
        with(InstructionName::Tag, "1"),
        plain(InstructionName::CALLER),
        with(InstructionName::Tag, "2"),
        plain(InstructionName::CALLER),
    ];
    let region = region(&stream);
    let blocks = region.blocks();
    assert_eq!(blocks.len(), 3);
    assert!(!blocks[0].runs_on());
    assert_eq!(names(&blocks[0]).last(), Some(&InstructionName::REVERT));
    assert!(blocks[1].runs_on());
    assert!(blocks[2].runs_on());
    for block in blocks.iter() {
        let list = names(block);
        for (index, name) in list.iter().enumerate() {
            assert_ne!(*name, InstructionName::Tag);
            if index + 1 < list.len() {
                assert!(!name.ends_block());
            }
        }
    }
}

#[test]
fn empty_stream_yields_no_block() {
    let mut region = region(&[]);
    assert_eq!(region.len(), 0);
    assert_eq!(region.link(), Ok(()));
}

#[test]
fn two_blocks_with_one_tag_are_rejected() {
    let stream = vec![
        with(InstructionName::Tag, "1"),
        plain(InstructionName::STOP),
        with(InstructionName::Tag, "01"),
        plain(InstructionName::STOP),
    ];
    let built = Region::try_from_instructions(version(), CodeType::Runtime, &stream);
    assert_eq!(built.err(), Some(in_block(Error::DuplicateKey, 1)));
    let stream = vec![plain(InstructionName::STOP), with(InstructionName::Tag, "0")];
    let built = Region::try_from_instructions(version(), CodeType::Runtime, &stream);
    assert_eq!(built.err(), Some(in_block(Error::DuplicateKey, 1)));
    let stream = vec![
        with(InstructionName::Tag, "1"),
        with(InstructionName::Tag, "2"),
        with(InstructionName::Tag, "3"),
        with(InstructionName::Tag, "2"),
        with(InstructionName::Tag, "1"),
    ];
    let built = Region::try_from_instructions(version(), CodeType::Runtime, &stream);
    assert_eq!(built.err(), Some(in_block(Error::DuplicateKey, 3)));
}

#[test]
fn block_without_a_tag_behind_the_first_is_rejected() {
    let stream = vec![
        with(InstructionName::Tag, "1"),
        plain(InstructionName::STOP),
        plain(InstructionName::CALLER),
    ];
    let built = Region::try_from_instructions(version(), CodeType::Runtime, &stream);
    assert_eq!(built.err(), Some(in_block(Error::UntaggedBlock, 1)));
}

#[test]
fn first_bad_tag_is_reported() {
    let stream = vec![
        with(InstructionName::Tag, "1"),
        with(InstructionName::Tag, "one"),
        plain(InstructionName::Tag),
    ];
    let built = Region::try_from_instructions(version(), CodeType::Runtime, &stream);
    assert_eq!(built.err(), Some(in_block(Error::InvalidTag, 1)));
    let stream = vec![
        with(InstructionName::Tag, "1"),
        plain(InstructionName::Tag),
        with(InstructionName::Tag, "1"),
    ];
    let built = Region::try_from_instructions(version(), CodeType::Runtime, &stream);
    assert_eq!(built.err(), Some(in_block(Error::MissingTag, 1)));
}

#[test]
fn link_follows_jumps_and_falling_through() {
    let stream = vec![
        plain(InstructionName::CALLVALUE),
        with(InstructionName::PUSH, "2"),
        plain(InstructionName::JUMPI),
        with(InstructionName::Tag, "1"),
        with(InstructionName::PUSH, "2"),
        plain(InstructionName::JUMP),
        with(InstructionName::Tag, "2"),
        with(InstructionName::PUSH, "002"),
        plain(InstructionName::CALLER),
        plain(InstructionName::SWAP1),
        plain(InstructionName::JUMPI),
        with(InstructionName::Tag, "3"),
        plain(InstructionName::STOP),
    ];
    let mut region = region(&stream);
    assert_eq!(region.len(), 4);
    assert_eq!(region.link(), Ok(()));
    let zero = FunctionBlockKey::new(CodeType::Runtime, Tag::zero());
    let blocks = region.blocks();
    assert!(blocks[0].predecessors.is_empty());
    assert_eq!(blocks[1].predecessors.len(), 1);
    assert!(blocks[1].predecessors.contains(&zero, 0));
    assert_eq!(blocks[2].predecessors.len(), 3);
    assert!(blocks[2].predecessors.contains(&zero, 0));
    assert!(blocks[2].predecessors.contains(&key("1"), 0));
    assert!(blocks[2].predecessors.contains(&key("2"), 0));
    assert_eq!(blocks[3].predecessors.len(), 1);
    assert!(blocks[3].predecessors.contains(&key("2"), 0));
    assert!(blocks[0].stack.is_empty());
    assert!(blocks[2].stack.is_empty());
    assert_eq!(
        blocks[2].to_text(),
        "block_rt_2/0: (predecessors: rt_0/0, rt_1/0, rt_2/0)\n    PUSH 002\n    CALLER\n    SWAP1\n    JUMPI\n"
    );
}

#[test]
fn link_names_predecessors_by_their_instance() {
    let stream = vec![
        plain(InstructionName::CALLER),
        with(InstructionName::Tag, "1"),
        plain(InstructionName::STOP),
    ];
    let mut region = region(&stream);
    assert_eq!(region.link(), Ok(()));
    assert_eq!(region.link(), Ok(()));
    let zero = FunctionBlockKey::new(CodeType::Runtime, Tag::zero());
    assert_eq!(region.blocks()[1].predecessors.len(), 1);
    assert!(region.blocks()[1].predecessors.contains(&zero, 0));
    assert_eq!(region.blocks()[0].stack.len(), 1);
}

#[test]
fn link_replays_on_the_seeded_stack() {
    let stream = vec![
        plain(InstructionName::CALLER),
        plain(InstructionName::STOP),
        with(InstructionName::Tag, "1"),
        plain(InstructionName::JUMP),
        with(InstructionName::Tag, "2"),
        plain(InstructionName::STOP),
    ];
    let mut unseeded = region(&stream);
    assert_eq!(unseeded.link(), Err(at(Error::StackUnderflow, 1, 0)));
    assert!(unseeded.blocks()[0].stack.is_empty());

    let mut seeded = region(&stream);
    let mut entry = ElementStack::new();
    entry.push(Slot::Unknown);
    entry.push(Slot::Constant("2".to_owned()));
    seeded.seed(1, entry);
    assert_eq!(seeded.link(), Ok(()));
    assert_eq!(seeded.blocks()[0].stack.len(), 1);
    assert_eq!(seeded.blocks()[1].initial_stack.len(), 2);
    assert_eq!(seeded.blocks()[1].stack.len(), 1);
    assert_eq!(seeded.blocks()[2].predecessors.len(), 1);
    assert!(seeded.blocks()[2].predecessors.contains(&key("1"), 0));
    assert!(seeded.blocks()[1].predecessors.is_empty());
}

#[test]
fn link_leaves_a_jump_to_an_unknown_target_alone() {
    let stream = vec![
        plain(InstructionName::CALLER),
        plain(InstructionName::JUMP),
        with(InstructionName::Tag, "1"),
        plain(InstructionName::STOP),
    ];
    let mut region = region(&stream);
    assert_eq!(region.link(), Ok(()));
    assert!(region.blocks()[1].predecessors.is_empty());
}

#[test]
fn link_rejects_a_jump_to_a_constant_that_is_no_number() {
    let stream = vec![with(InstructionName::PUSH, "here"), plain(InstructionName::JUMP)];
    let mut region = region(&stream);
    assert_eq!(region.link(), Err(at(Error::InvalidTag, 0, 1)));
}

#[test]
fn link_reports_the_first_block_that_fails() {
    let stream = vec![
        with(InstructionName::PUSH, "9"),
        plain(InstructionName::JUMP),
        with(InstructionName::Tag, "1"),
        plain(InstructionName::POP),
    ];
    let mut region = region(&stream);
    assert_eq!(region.link(), Err(at(Error::DanglingPredecessor, 0, 1)));
    let stream = vec![
        plain(InstructionName::POP),
        with(InstructionName::PUSH, "9"),
        plain(InstructionName::JUMP),
    ];
    let mut region = self::region(&stream);
    assert_eq!(region.link(), Err(at(Error::StackUnderflow, 0, 0)));
    let stream = vec![
        plain(InstructionName::CALLER),
        with(InstructionName::Tag, "1"),
        with(InstructionName::PUSH, "1"),
        plain(InstructionName::CALLER),
        plain(InstructionName::SWAP1),
        plain(InstructionName::JUMPI),
        with(InstructionName::PUSH, "4"),
        plain(InstructionName::JUMP),
    ];
    let mut region = self::region(&stream);
    assert_eq!(region.link(), Err(at(Error::DanglingPredecessor, 1, 5)));
}

#[test]
fn find_gives_the_place_of_a_tag() {
    let stream = vec![
        plain(InstructionName::STOP),
        with(InstructionName::Tag, "5"),
        with(InstructionName::Tag, "3"),
    ];
    let region = region(&stream);
    assert_eq!(region.find(&Tag::zero()), Some(0));
    assert_eq!(region.find(&Tag::parse("5").expect("a number")), Some(1));
    assert_eq!(region.find(&Tag::parse("03").expect("a number")), Some(2));
    assert_eq!(region.find(&Tag::parse("4").expect("a number")), None);
    let blocks = region.into_blocks();
    assert_eq!(blocks.len(), 3);
    assert_eq!(blocks[1].key, key("5"));
}

#[test]
fn region_is_emitted_in_the_order_asked_for() {
    let stream = vec![
        plain(InstructionName::CALLER),
        with(InstructionName::Tag, "1"),
        with(InstructionName::PUSH, "1"),
        plain(InstructionName::STOP),
    ];
    let region = Region::try_from_instructions(version(), CodeType::Deploy, &stream)
        .expect("a region");
    let select = Emission::SelectRegion { code_type: CodeType::Deploy };
    let caller = Emission::Element {
        index: 0,
        action: Action::Operate {
            name: InstructionName::CALLER,
            base: 0,
            inputs: 0,
            outputs: 1,
        },
    };
    let push = Emission::Element { index: 0, action: Action::Constant { target: 0 } };
    let stop = Emission::Element {
        index: 1,
        action: Action::Operate { name: InstructionName::STOP, base: 1, inputs: 0, outputs: 0 },
    };
    assert_eq!(region.declaration_order(), vec![0, 1]);
    assert_eq!(
        region.emission(&region.declaration_order()),
        Ok(vec![(0, select), (0, caller), (1, select), (1, push), (1, stop)])
    );
    assert_eq!(
        region.emission(&[1, 0]),
        Ok(vec![(1, select), (1, push), (1, stop), (0, select), (0, caller)])
    );
    assert_eq!(region.emission(&[]), Ok(vec![]));
}

#[test]
fn region_emission_fails_on_the_first_block_that_underflows() {
    let stream = vec![
        plain(InstructionName::CALLER),
        with(InstructionName::Tag, "1"),
        plain(InstructionName::CALLER),
        plain(InstructionName::ADD),
        with(InstructionName::Tag, "2"),
        plain(InstructionName::POP),
    ];
    let region = region(&stream);
    assert_eq!(region.emission(&[0, 2, 1]), Err(at(Error::StackUnderflow, 2, 0)));
    assert_eq!(region.emission(&[0, 1, 2]), Err(at(Error::StackUnderflow, 1, 1)));
    assert!(region.emission(&[0]).is_ok());
}
