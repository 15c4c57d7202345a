use compiler_solidity::block::{Block, Emission};
use compiler_solidity::element::Action;
use compiler_solidity::error::{Error, ErrorClass, Failure};
use compiler_solidity::instruction::{Instruction, InstructionName};
use compiler_solidity::key::{CodeType, FunctionBlockKey, Tag};
use compiler_solidity::stack::Slot;

fn version() -> semver::Version {
    semver::Version::new(0, 8, 19)
}

fn plain(name: InstructionName) -> Instruction {
    Instruction::new(name, None)
}

fn with(name: InstructionName, value: &str) -> Instruction {
    Instruction::new(name, Some(value.to_owned()))
}

fn tag(text: &str) -> Tag {
    Tag::parse(text).expect("a number")
}

fn at(error: Error, element: usize) -> Failure {
    Failure { error, block: None, element: Some(element) }
}

fn names(block: &Block) -> Vec<InstructionName> {
    block.elements.iter().map(|element| element.instruction.name).collect()
}

#[test]
fn single_block_is_built() {
    let stream = vec![with(InstructionName::PUSH, "1"), plain(InstructionName::JUMP)];
    let (block, consumed) =
        Block::try_from_instructions(version(), CodeType::Runtime, &stream).expect("a block");
    assert_eq!(consumed, 2);
    assert_eq!(block.elements.len(), 2);
    assert_eq!(block.key, FunctionBlockKey::new(CodeType::Runtime, Tag::zero()));
    assert_eq!(block.instance, None);
    assert_eq!(block.solc_version, version());
    assert!(block.predecessors.is_empty());
    assert!(block.initial_stack.is_empty());
    assert!(block.stack.is_empty());
    assert!(block.extra_hashes.is_empty());
}

#[test]
fn block_stops_before_the_next_tag() {
    let stream = vec![
        with(InstructionName::Tag, "1"),
        with(InstructionName::PUSH, "5"),
        with(InstructionName::PUSH, "3"),
        plain(InstructionName::ADD),
        with(InstructionName::Tag, "2"),
        plain(InstructionName::RETURN),
    ];
    let (first, consumed) =
        Block::try_from_instructions(version(), CodeType::Deploy, &stream).expect("a block");
    assert_eq!(consumed, 4);
    assert_eq!(first.key.tag, tag("1"));
    assert_eq!(first.key.code_type, CodeType::Deploy);
    assert_eq!(
        names(&first),
        vec![InstructionName::PUSH, InstructionName::PUSH, InstructionName::ADD]
    );
    assert_eq!(first.elements[0].instruction.value.as_deref(), Some("5"));
    assert_eq!(first.elements[1].instruction.value.as_deref(), Some("3"));
    assert!(first.predecessors.is_empty());

    let (second, consumed) =
        Block::try_from_instructions(version(), CodeType::Deploy, &stream[4..]).expect("a block");
    assert_eq!(consumed, 2);
    assert_eq!(second.key.tag, tag("2"));
    assert_eq!(names(&second), vec![InstructionName::RETURN]);
    assert!(second.predecessors.is_empty());
}

#[test]
fn block_is_sealed_behind_each_terminator() {
    for name in [
        InstructionName::RETURN,
        InstructionName::REVERT,
        InstructionName::STOP,
        InstructionName::INVALID,
        InstructionName::JUMP,
    ] {
        let stream = vec![plain(InstructionName::CALLER), plain(name), plain(InstructionName::POP)];
        let (block, consumed) =
            Block::try_from_instructions(version(), CodeType::Runtime, &stream).expect("a block");
        assert_eq!(consumed, 2);
        assert_eq!(names(&block), vec![InstructionName::CALLER, name]);
    }
}

#[test]
fn conditional_jump_does_not_seal_a_block() {
    let stream = vec![
        with(InstructionName::PUSH, "1"),
        with(InstructionName::PUSH, "7"),
        plain(InstructionName::JUMPI),
        plain(InstructionName::SELFDESTRUCT),
        plain(InstructionName::STOP),
    ];
    let (block, consumed) =
        Block::try_from_instructions(version(), CodeType::Runtime, &stream).expect("a block");
    assert_eq!(consumed, 5);
    assert_eq!(block.elements.len(), 5);
}

#[test]
fn block_of_a_lone_tag_has_no_elements() {
    let stream = vec![with(InstructionName::Tag, "4"), with(InstructionName::Tag, "5")];
    let (block, consumed) =
        Block::try_from_instructions(version(), CodeType::Runtime, &stream).expect("a block");
    assert_eq!(consumed, 1);
    assert!(block.elements.is_empty());
    assert_eq!(block.key.tag, tag("4"));
}

#[test]
fn block_ends_with_the_stream() {
    let stream = vec![with(InstructionName::Tag, "9"), plain(InstructionName::CALLER)];
    let (block, consumed) =
        Block::try_from_instructions(version(), CodeType::Runtime, &stream).expect("a block");
    assert_eq!(consumed, 2);
    assert_eq!(names(&block), vec![InstructionName::CALLER]);
    assert!(block.runs_on());
}

#[test]
fn empty_slice_is_rejected() {
    let built = Block::try_from_instructions(version(), CodeType::Runtime, &[]);
    assert_eq!(built.err(), Some(Error::EmptyInput));
}

#[test]
fn tag_without_operand_is_rejected() {
    let stream = vec![plain(InstructionName::Tag), plain(InstructionName::STOP)];
    let built = Block::try_from_instructions(version(), CodeType::Runtime, &stream);
    assert_eq!(built.err(), Some(Error::MissingTag));
}

#[test]
fn tag_that_is_no_number_is_rejected() {
    for text in ["", "x", "-1", "1.5", "0x10", "_1", "++1", " 1"] {
        let stream = vec![with(InstructionName::Tag, text), plain(InstructionName::STOP)];
        let built = Block::try_from_instructions(version(), CodeType::Runtime, &stream);
        assert_eq!(built.err(), Some(Error::InvalidTag), "{:?}", text);
    }
}

#[test]
fn errors_fall_into_their_classes() {
    assert_eq!(Error::EmptyInput.class(), ErrorClass::MalformedInput);
    assert_eq!(Error::MissingTag.class(), ErrorClass::MalformedInput);
    assert_eq!(Error::InvalidTag.class(), ErrorClass::MalformedInput);
    assert_eq!(Error::UntaggedBlock.class(), ErrorClass::MalformedInput);
    assert_eq!(Error::DuplicateKey.class(), ErrorClass::MalformedInput);
    assert_eq!(Error::StackUnderflow.class(), ErrorClass::StackUnderflow);
    assert_eq!(Error::DanglingPredecessor.class(), ErrorClass::DanglingPredecessor);
}

#[test]
fn tag_is_read_as_a_number() {
    assert_eq!(tag("007"), tag("7"));
    assert_eq!(tag("+5"), tag("5"));
    assert_eq!(tag("1_000"), tag("1000"));
    assert_eq!(tag("0"), Tag::zero());
    assert_eq!(tag("000"), Tag::zero());
    assert_ne!(tag("10"), tag("1"));
    assert_eq!(tag("007").to_text(), "7");
    assert_eq!(Tag::zero().to_text(), "0");
    let large = "340282366920938463463374607431768211456789";
    assert_eq!(tag(large).to_text(), large);
    assert!(Tag::parse("seven").is_none());
}

#[test]
fn key_label_names_region_and_tag() {
    assert_eq!(FunctionBlockKey::new(CodeType::Deploy, tag("12")).to_text(), "dt_12");
    assert_eq!(FunctionBlockKey::new(CodeType::Runtime, Tag::zero()).to_text(), "rt_0");
    assert_eq!(CodeType::Deploy.to_text(), "dt");
    assert_eq!(CodeType::Runtime.to_text(), "rt");
    let key = FunctionBlockKey::new(CodeType::Runtime, tag("3"));
    assert_eq!(key.clone(), key);
    assert_ne!(key, FunctionBlockKey::new(CodeType::Deploy, tag("3")));
    assert_ne!(key, FunctionBlockKey::new(CodeType::Runtime, tag("4")));
}

#[test]
fn predecessor_inserted_twice_is_held_once() {
    let stream = vec![plain(InstructionName::STOP)];
    let (mut block, _) =
        Block::try_from_instructions(version(), CodeType::Runtime, &stream).expect("a block");
    let key = FunctionBlockKey::new(CodeType::Runtime, tag("7"));
    block.insert_predecessor(key.clone(), 0);
    assert_eq!(block.predecessors.len(), 1);
    block.insert_predecessor(key.clone(), 0);
    assert_eq!(block.predecessors.len(), 1);
    assert!(block.predecessors.contains(&key, 0));
    assert!(!block.predecessors.contains(&key, 1));
    block.insert_predecessor(key.clone(), 1);
    assert_eq!(block.predecessors.len(), 2);
    block.insert_predecessor(FunctionBlockKey::new(CodeType::Runtime, tag("07")), 1);
    assert_eq!(block.predecessors.len(), 2);
    block.insert_predecessor(FunctionBlockKey::new(CodeType::Deploy, tag("7")), 1);
    assert_eq!(block.predecessors.len(), 3);
    assert_eq!(block.predecessors.get(0), &(key, 0));
}

#[test]
fn replay_records_the_stack() {
    let stream = vec![
        with(InstructionName::PUSH, "5"),
        with(InstructionName::PUSH, "3"),
        plain(InstructionName::ADD),
        plain(InstructionName::DUP1),
        with(InstructionName::PUSH, "9"),
        plain(InstructionName::SWAP2),
    ];
    let (mut block, consumed) =
        Block::try_from_instructions(version(), CodeType::Runtime, &stream).expect("a block");
    assert_eq!(consumed, 6);
    assert_eq!(block.replay(), Ok(()));
    assert!(block.initial_stack.is_empty());
    assert_eq!(block.stack.len(), 3);
    assert!(matches!(&block.stack.slots[0], Slot::Constant(text) if text == "9"));
    assert!(matches!(&block.stack.slots[1], Slot::Duplicate(0)));
    assert!(matches!(&block.stack.slots[2], Slot::Unknown));
}

#[test]
fn replay_gives_the_same_stack_again() {
    let stream = vec![
        plain(InstructionName::MLOAD),
        with(InstructionName::PUSH, "64"),
        plain(InstructionName::DUP2),
        plain(InstructionName::SSTORE),
        plain(InstructionName::CALLER),
    ];
    let (mut block, _) =
        Block::try_from_instructions(version(), CodeType::Runtime, &stream).expect("a block");
    block.initial_stack.push(Slot::Constant("1".to_owned()));
    block.initial_stack.push(Slot::Unknown);
    assert_eq!(block.replay(), Ok(()));
    let recorded = format!("{:?}", block.stack);
    assert_eq!(block.replay(), Ok(()));
    assert_eq!(format!("{:?}", block.stack), recorded);

    let mut stack = block.initial_stack.snapshot();
    for element in block.elements.iter() {
        element.apply(&mut stack).expect("enough slots");
    }
    assert_eq!(format!("{:?}", stack), recorded);
    assert_eq!(block.initial_stack.len(), 2);
    assert_eq!(block.stack.len(), 3);
}

#[test]
fn replay_on_too_few_slots_fails() {
    for name in [InstructionName::POP, InstructionName::DUP1, InstructionName::SWAP1] {
        let stream = vec![plain(name), with(InstructionName::PUSH, "1")];
        let (mut block, _) =
            Block::try_from_instructions(version(), CodeType::Runtime, &stream).expect("a block");
        assert_eq!(block.replay(), Err(at(Error::StackUnderflow, 0)));
        assert!(block.stack.is_empty());
        assert_eq!(block.emission().err(), Some(at(Error::StackUnderflow, 0)));
        assert_eq!(block.jump_targets().err(), Some(at(Error::StackUnderflow, 0)));
    }
}

#[test]
fn replay_fails_in_the_middle_and_keeps_the_old_stack() {
    let stream = vec![with(InstructionName::PUSH, "1"), plain(InstructionName::ADD)];
    let (mut block, _) =
        Block::try_from_instructions(version(), CodeType::Runtime, &stream).expect("a block");
    block.stack.push(Slot::Unknown);
    assert_eq!(block.replay(), Err(at(Error::StackUnderflow, 1)));
    assert_eq!(block.stack.len(), 1);
}

#[test]
fn emission_selects_the_region_and_lists_the_elements() {
    let stream = vec![
        with(InstructionName::Tag, "3"),
        with(InstructionName::PUSH, "5"),
        plain(InstructionName::DUP1),
        plain(InstructionName::CALLER),
        plain(InstructionName::SWAP2),
        plain(InstructionName::ADDMOD),
        plain(InstructionName::JUMP),
    ];
    let (block, _) =
        Block::try_from_instructions(version(), CodeType::Deploy, &stream).expect("a block");
    let plan = block.emission().expect("enough slots");
    assert_eq!(
        plan,
        vec![
            Emission::SelectRegion { code_type: CodeType::Deploy },
            Emission::Element { index: 0, action: Action::Constant { target: 0 } },
            Emission::Element { index: 1, action: Action::Copy { source: 0, target: 1 } },
            Emission::Element {
                index: 2,
                action: Action::Operate {
                    name: InstructionName::CALLER,
                    base: 2,
                    inputs: 0,
                    outputs: 1
                }
            },
            Emission::Element { index: 3, action: Action::Exchange { upper: 2, lower: 0 } },
            Emission::Element {
                index: 4,
                action: Action::Operate {
                    name: InstructionName::ADDMOD,
                    base: 0,
                    inputs: 3,
                    outputs: 1
                }
            },
            Emission::Element {
                index: 5,
                action: Action::Operate {
                    name: InstructionName::JUMP,
                    base: 0,
                    inputs: 1,
                    outputs: 0
                }
            },
        ]
    );
}

#[test]
fn emission_of_an_empty_block_selects_the_region() {
    let stream = vec![with(InstructionName::Tag, "3")];
    let (block, _) =
        Block::try_from_instructions(version(), CodeType::Runtime, &stream).expect("a block");
    assert_eq!(
        block.emission(),
        Ok(vec![Emission::SelectRegion { code_type: CodeType::Runtime }])
    );
}

#[test]
fn jump_targets_are_the_constants_that_jumps_take() {
    let stream = vec![
        plain(InstructionName::CALLER),
        with(InstructionName::PUSH, "07"),
        plain(InstructionName::JUMPI),
        plain(InstructionName::CALLER),
        plain(InstructionName::JUMPI),
        with(InstructionName::PUSH, "2"),
        plain(InstructionName::JUMP),
    ];
    let (mut block, _) =
        Block::try_from_instructions(version(), CodeType::Runtime, &stream).expect("a block");
    block.initial_stack.push(Slot::Unknown);
    assert_eq!(block.jump_targets(), Ok(vec![(2, tag("7")), (6, tag("2"))]));
    assert!(!block.runs_on());
}

#[test]
fn jump_to_a_constant_that_is_no_number_is_rejected() {
    let stream = vec![with(InstructionName::PUSH, "0x40"), plain(InstructionName::JUMP)];
    let (block, _) =
        Block::try_from_instructions(version(), CodeType::Runtime, &stream).expect("a block");
    assert_eq!(block.jump_targets().err(), Some(at(Error::InvalidTag, 1)));
}

#[test]
fn block_reads_the_same_on_every_run() {
    let stream = vec![
        with(InstructionName::Tag, "12"),
        with(InstructionName::PUSH, "80"),
        plain(InstructionName::MLOAD),
        plain(InstructionName::STOP),
    ];
    let (mut block, _) =
        Block::try_from_instructions(version(), CodeType::Runtime, &stream).expect("a block");
    assert_eq!(block.to_text(), "block_rt_12/0: \n    PUSH 80\n    MLOAD\n    STOP\n");
    block.instance = Some(3);
    block.insert_predecessor(FunctionBlockKey::new(CodeType::Runtime, tag("5")), 1);
    assert_eq!(
        block.to_text(),
        "block_rt_12/3: (predecessors: rt_5/1)\n    PUSH 80\n    MLOAD\n    STOP\n"
    );
    block.insert_predecessor(FunctionBlockKey::new(CodeType::Deploy, Tag::zero()), 10);
    block.insert_predecessor(FunctionBlockKey::new(CodeType::Runtime, tag("5")), 1);
    assert_eq!(
        block.to_text(),
        "block_rt_12/3: (predecessors: rt_5/1, dt_0/10)\n    PUSH 80\n    MLOAD\n    STOP\n"
    );
    assert_eq!(block.to_text(), block.to_text());
}

#[test]
fn copy_of_a_block_reads_like_the_block() {
    let stream = vec![
        with(InstructionName::Tag, "12"),
        with(InstructionName::PUSH, "80"),
        plain(InstructionName::DUP1),
    ];
    let (mut block, _) =
        Block::try_from_instructions(version(), CodeType::Runtime, &stream).expect("a block");
    block.instance = Some(2);
    block.insert_predecessor(FunctionBlockKey::new(CodeType::Runtime, tag("5")), 1);
    block.initial_stack.push(Slot::Unknown);
    block.extra_hashes.push(md5::Digest([7u8; 16]));
    assert_eq!(block.replay(), Ok(()));
    let copy = block.clone();
    assert_eq!(copy.to_text(), block.to_text());
    assert_eq!(copy.key, block.key);
    assert_eq!(copy.instance, Some(2));
    assert_eq!(copy.solc_version, block.solc_version);
    assert_eq!(format!("{:?}", copy.initial_stack), format!("{:?}", block.initial_stack));
    assert_eq!(format!("{:?}", copy.stack), format!("{:?}", block.stack));
    assert_eq!(copy.stack.len(), 3);
    assert_eq!(copy.extra_hashes, block.extra_hashes);
    assert_eq!(copy.predecessors.len(), 1);
    assert!(copy.predecessors.contains(&FunctionBlockKey::new(CodeType::Runtime, tag("5")), 1));
}
