use compiler_solidity::element::{Action, Element};
use compiler_solidity::error::Error;
use compiler_solidity::instruction::{Instruction, InstructionName};
use compiler_solidity::numeral::decimal_text;
use compiler_solidity::stack::{ElementStack, Slot};

fn element(name: InstructionName, value: Option<&str>) -> Element {
    Element::new(
        semver::Version::new(0, 4, 26),
        Instruction::new(name, value.map(|text| text.to_owned())),
    )
}

fn constants(texts: &[&str]) -> ElementStack {
    let mut stack = ElementStack::new();
    for text in texts {
        stack.push(Slot::Constant((*text).to_owned()));
    }
    stack
}

fn shape(stack: &ElementStack) -> Vec<String> {
    stack
        .slots
        .iter()
        .map(|slot| match slot {
            Slot::Constant(text) => format!("c{}", text),
            Slot::Duplicate(index) => format!("d{}", index),
            Slot::Unknown => "?".to_owned(),
        })
        .collect()
}

#[test]
fn new_stack_is_empty() {
    let stack = ElementStack::new();
    assert!(stack.is_empty());
    assert_eq!(stack.len(), 0);
}

#[test]
fn push_then_pop_gives_the_slot_back() {
    let mut stack = constants(&["1", "2"]);
    assert_eq!(stack.len(), 2);
    assert!(matches!(stack.pop(), Ok(Slot::Constant(text)) if text == "2"));
    assert!(matches!(stack.pop(), Ok(Slot::Constant(text)) if text == "1"));
    assert!(stack.is_empty());
}

#[test]
fn pop_on_the_empty_stack_fails() {
    let mut stack = ElementStack::new();
    assert!(matches!(stack.pop(), Err(Error::StackUnderflow)));
    assert!(stack.is_empty());
}

#[test]
fn duplicate_pushes_a_reference() {
    let mut stack = constants(&["a", "b", "c"]);
    assert_eq!(stack.duplicate(0), Ok(()));
    assert_eq!(shape(&stack), ["ca", "cb", "cc", "d2"]);
    assert_eq!(stack.duplicate(3), Ok(()));
    assert_eq!(shape(&stack), ["ca", "cb", "cc", "d2", "d0"]);
}

#[test]
fn duplicate_beyond_the_stack_fails() {
    let mut stack = constants(&["a", "b"]);
    assert_eq!(stack.duplicate(2), Err(Error::StackUnderflow));
    assert_eq!(shape(&stack), ["ca", "cb"]);
    let mut empty = ElementStack::new();
    assert_eq!(empty.duplicate(0), Err(Error::StackUnderflow));
    assert!(empty.is_empty());
}

#[test]
fn swap_exchanges_two_slots() {
    let mut stack = constants(&["a", "b", "c", "d"]);
    assert_eq!(stack.swap(1), Ok(()));
    assert_eq!(shape(&stack), ["ca", "cb", "cd", "cc"]);
    assert_eq!(stack.swap(3), Ok(()));
    assert_eq!(shape(&stack), ["cc", "cb", "cd", "ca"]);
    assert_eq!(stack.swap(0), Ok(()));
    assert_eq!(shape(&stack), ["cc", "cb", "cd", "ca"]);
}

#[test]
fn swap_beyond_the_stack_fails() {
    let mut stack = constants(&["a", "b"]);
    assert_eq!(stack.swap(2), Err(Error::StackUnderflow));
    assert_eq!(shape(&stack), ["ca", "cb"]);
    let mut empty = ElementStack::new();
    assert_eq!(empty.swap(0), Err(Error::StackUnderflow));
}

#[test]
fn snapshot_and_restore_bring_the_stack_back() {
    let mut stack = constants(&["a", "b"]);
    let snapshot = stack.snapshot();
    stack.push(Slot::Unknown);
    assert_eq!(stack.swap(2), Ok(()));
    assert_eq!(shape(&stack), ["?", "cb", "ca"]);
    assert_eq!(shape(&snapshot), ["ca", "cb"]);
    stack.restore(snapshot);
    assert_eq!(shape(&stack), ["ca", "cb"]);
    assert_eq!(shape(&stack.clone()), ["ca", "cb"]);
}

#[test]
fn push_puts_its_operand_on_the_stack() {
    let mut stack = ElementStack::new();
    let action = element(InstructionName::PUSH, Some("80")).apply(&mut stack);
    assert_eq!(action, Ok(Action::Constant { target: 0 }));
    let action = element(InstructionName::PUSH, None).apply(&mut stack);
    assert_eq!(action, Ok(Action::Constant { target: 1 }));
    assert_eq!(shape(&stack), ["c80", "?"]);
}

#[test]
fn operation_takes_inputs_and_leaves_outputs() {
    let mut stack = constants(&["a", "b", "c"]);
    let action = element(InstructionName::ADD, None).apply(&mut stack);
    assert_eq!(
        action,
        Ok(Action::Operate { name: InstructionName::ADD, base: 1, inputs: 2, outputs: 1 })
    );
    assert_eq!(shape(&stack), ["ca", "?"]);
    let action = element(InstructionName::MSTORE, None).apply(&mut stack);
    assert_eq!(
        action,
        Ok(Action::Operate { name: InstructionName::MSTORE, base: 0, inputs: 2, outputs: 0 })
    );
    assert!(stack.is_empty());
}

#[test]
fn operation_on_too_few_slots_leaves_the_stack() {
    let mut stack = constants(&["a", "b"]);
    assert_eq!(element(InstructionName::ADDMOD, None).apply(&mut stack), Err(Error::StackUnderflow));
    assert_eq!(shape(&stack), ["ca", "cb"]);
    assert_eq!(element(InstructionName::DUP3, None).apply(&mut stack), Err(Error::StackUnderflow));
    assert_eq!(element(InstructionName::SWAP2, None).apply(&mut stack), Err(Error::StackUnderflow));
    assert_eq!(shape(&stack), ["ca", "cb"]);
}

#[test]
fn dup_and_swap_count_from_the_top() {
    let mut stack = constants(&["a", "b", "c"]);
    assert_eq!(
        element(InstructionName::DUP2, None).apply(&mut stack),
        Ok(Action::Copy { source: 1, target: 3 })
    );
    assert_eq!(shape(&stack), ["ca", "cb", "cc", "d1"]);
    assert_eq!(
        element(InstructionName::SWAP3, None).apply(&mut stack),
        Ok(Action::Exchange { upper: 3, lower: 0 })
    );
    assert_eq!(shape(&stack), ["d1", "cb", "cc", "ca"]);
    assert_eq!(
        element(InstructionName::DUP1, None).apply(&mut stack),
        Ok(Action::Copy { source: 3, target: 4 })
    );
    assert_eq!(
        element(InstructionName::SWAP1, None).apply(&mut stack),
        Ok(Action::Exchange { upper: 4, lower: 3 })
    );
}

#[test]
fn stack_delta_is_outputs_less_inputs() {
    assert_eq!(element(InstructionName::PUSH, Some("1")).stack_delta(), 1);
    assert_eq!(element(InstructionName::POP, None).stack_delta(), -1);
    assert_eq!(element(InstructionName::ADD, None).stack_delta(), -1);
    assert_eq!(element(InstructionName::ISZERO, None).stack_delta(), 0);
    assert_eq!(element(InstructionName::CALL, None).stack_delta(), -6);
    assert_eq!(element(InstructionName::LOG4, None).stack_delta(), -6);
    assert_eq!(element(InstructionName::DUP16, None).stack_delta(), 1);
    assert_eq!(element(InstructionName::SWAP16, None).stack_delta(), 0);
    assert_eq!(element(InstructionName::JUMPI, None).stack_delta(), -2);
    assert_eq!(element(InstructionName::Tag, Some("1")).stack_delta(), 0);
}

#[test]
fn instruction_names_know_their_slots() {
    assert_eq!(InstructionName::DUP5.input_count(), 5);
    assert_eq!(InstructionName::DUP5.output_count(), 6);
    assert_eq!(InstructionName::SWAP5.input_count(), 6);
    assert_eq!(InstructionName::SWAP5.output_count(), 6);
    assert_eq!(InstructionName::STATICCALL.input_count(), 6);
    assert_eq!(InstructionName::STATICCALL.output_count(), 1);
    assert_eq!(InstructionName::DUP16.duplicated(), Some(16));
    assert_eq!(InstructionName::SWAP1.duplicated(), None);
    assert_eq!(InstructionName::SWAP1.swapped(), Some(1));
    assert_eq!(InstructionName::ADD.swapped(), None);
    assert!(InstructionName::JUMP.ends_block());
    assert!(!InstructionName::JUMPI.ends_block());
    assert!(!InstructionName::SELFDESTRUCT.ends_block());
    assert!(InstructionName::JUMPI.jumps());
    assert!(!InstructionName::RETURN.jumps());
    assert_eq!(InstructionName::KECCAK256.to_text(), "KECCAK256");
    assert_eq!(InstructionName::Tag.to_text(), "Tag");
}

#[test]
fn instruction_reads_as_name_and_operand() {
    assert_eq!(Instruction::new(InstructionName::STOP, None).to_text(), "STOP");
    assert_eq!(
        Instruction::new(InstructionName::PUSH, Some("0x80".to_owned())).to_text(),
        "PUSH 0x80"
    );
    let copy = Instruction::new(InstructionName::PUSH, Some("7".to_owned())).clone();
    assert_eq!(copy.name, InstructionName::PUSH);
    assert_eq!(copy.value.as_deref(), Some("7"));
}

#[test]
fn numbers_are_written_in_decimal() {
    assert_eq!(decimal_text(0), "0");
    assert_eq!(decimal_text(9), "9");
    assert_eq!(decimal_text(10), "10");
    assert_eq!(decimal_text(4096), "4096");
    assert_eq!(decimal_text(usize::MAX), usize::MAX.to_string());
}
