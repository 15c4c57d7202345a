//! The instructions of the legacy assembly: their names, their operands and
//! what each does to the depth of the operand stack.

use vstd::prelude::*;

verus! {

/// The name of an instruction.
#[allow(non_camel_case_types)]
#[derive(Debug, Clone, Copy, PartialEq, Eq, Hash, Structural)]
pub enum InstructionName {
    /// The pseudo-instruction that marks a jump target and opens a block.
    Tag,
    /// Pushes its operand.
    PUSH,
    /// Pushes a copy of the slot 1 from the top.
    DUP1,
    /// Pushes a copy of the slot 2 from the top.
    DUP2,
    /// Pushes a copy of the slot 3 from the top.
    DUP3,
    /// Pushes a copy of the slot 4 from the top.
    DUP4,
    /// Pushes a copy of the slot 5 from the top.
    DUP5,
    /// Pushes a copy of the slot 6 from the top.
    DUP6,
    /// Pushes a copy of the slot 7 from the top.
    DUP7,
    /// Pushes a copy of the slot 8 from the top.
    DUP8,
    /// Pushes a copy of the slot 9 from the top.
    DUP9,
    /// Pushes a copy of the slot 10 from the top.
    DUP10,
    /// Pushes a copy of the slot 11 from the top.
    DUP11,
    /// Pushes a copy of the slot 12 from the top.
    DUP12,
    /// Pushes a copy of the slot 13 from the top.
    DUP13,
    /// Pushes a copy of the slot 14 from the top.
    DUP14,
    /// Pushes a copy of the slot 15 from the top.
    DUP15,
    /// Pushes a copy of the slot 16 from the top.
    DUP16,
    /// Exchanges the top slot with the slot 1 below it.
    SWAP1,
    /// Exchanges the top slot with the slot 2 below it.
    SWAP2,
    /// Exchanges the top slot with the slot 3 below it.
    SWAP3,
    /// Exchanges the top slot with the slot 4 below it.
    SWAP4,
    /// Exchanges the top slot with the slot 5 below it.
    SWAP5,
    /// Exchanges the top slot with the slot 6 below it.
    SWAP6,
    /// Exchanges the top slot with the slot 7 below it.
    SWAP7,
    /// Exchanges the top slot with the slot 8 below it.
    SWAP8,
    /// Exchanges the top slot with the slot 9 below it.
    SWAP9,
    /// Exchanges the top slot with the slot 10 below it.
    SWAP10,
    /// Exchanges the top slot with the slot 11 below it.
    SWAP11,
    /// Exchanges the top slot with the slot 12 below it.
    SWAP12,
    /// Exchanges the top slot with the slot 13 below it.
    SWAP13,
    /// Exchanges the top slot with the slot 14 below it.
    SWAP14,
    /// Exchanges the top slot with the slot 15 below it.
    SWAP15,
    /// Exchanges the top slot with the slot 16 below it.
    SWAP16,
    /// Takes 1 slot and leaves 0.
    POP,
    /// Takes 2 slots and leaves 1.
    ADD,
    /// Takes 2 slots and leaves 1.
    MUL,
    /// Takes 2 slots and leaves 1.
    SUB,
    /// Takes 2 slots and leaves 1.
    DIV,
    /// Takes 2 slots and leaves 1.
    SDIV,
    /// Takes 2 slots and leaves 1.
    MOD,
    /// Takes 2 slots and leaves 1.
    SMOD,
    /// Takes 3 slots and leaves 1.
    ADDMOD,
    /// Takes 3 slots and leaves 1.
    MULMOD,
    /// Takes 2 slots and leaves 1.
    EXP,
    /// Takes 2 slots and leaves 1.
    SIGNEXTEND,
    /// Takes 2 slots and leaves 1.
    LT,
    /// Takes 2 slots and leaves 1.
    GT,
    /// Takes 2 slots and leaves 1.
    SLT,
    /// Takes 2 slots and leaves 1.
    SGT,
    /// Takes 2 slots and leaves 1.
    EQ,
    /// Takes 1 slot and leaves 1.
    ISZERO,
    /// Takes 2 slots and leaves 1.
    AND,
    /// Takes 2 slots and leaves 1.
    OR,
    /// Takes 2 slots and leaves 1.
    XOR,
    /// Takes 1 slot and leaves 1.
    NOT,
    /// Takes 2 slots and leaves 1.
    BYTE,
    /// Takes 2 slots and leaves 1.
    SHL,
    /// Takes 2 slots and leaves 1.
    SHR,
    /// Takes 2 slots and leaves 1.
    SAR,
    /// Takes 2 slots and leaves 1.
    KECCAK256,
    /// Takes 0 slots and leaves 1.
    ADDRESS,
    /// Takes 1 slot and leaves 1.
    BALANCE,
    /// Takes 0 slots and leaves 1.
    ORIGIN,
    /// Takes 0 slots and leaves 1.
    CALLER,
    /// Takes 0 slots and leaves 1.
    CALLVALUE,
    /// Takes 1 slot and leaves 1.
    CALLDATALOAD,
    /// Takes 0 slots and leaves 1.
    CALLDATASIZE,
    /// Takes 3 slots and leaves 0.
    CALLDATACOPY,
    /// Takes 0 slots and leaves 1.
    CODESIZE,
    /// Takes 3 slots and leaves 0.
    CODECOPY,
    /// Takes 0 slots and leaves 1.
    GASPRICE,
    /// Takes 1 slot and leaves 1.
    EXTCODESIZE,
    /// Takes 4 slots and leaves 0.
    EXTCODECOPY,
    /// Takes 0 slots and leaves 1.
    RETURNDATASIZE,
    /// Takes 3 slots and leaves 0.
    RETURNDATACOPY,
    /// Takes 1 slot and leaves 1.
    EXTCODEHASH,
    /// Takes 1 slot and leaves 1.
    BLOCKHASH,
    /// Takes 0 slots and leaves 1.
    COINBASE,
    /// Takes 0 slots and leaves 1.
    TIMESTAMP,
    /// Takes 0 slots and leaves 1.
    NUMBER,
    /// Takes 0 slots and leaves 1.
    DIFFICULTY,
    /// Takes 0 slots and leaves 1.
    GASLIMIT,
    /// Takes 0 slots and leaves 1.
    CHAINID,
    /// Takes 0 slots and leaves 1.
    SELFBALANCE,
    /// Takes 0 slots and leaves 1.
    BASEFEE,
    /// Takes 1 slot and leaves 1.
    MLOAD,
    /// Takes 2 slots and leaves 0.
    MSTORE,
    /// Takes 2 slots and leaves 0.
    MSTORE8,
    /// Takes 1 slot and leaves 1.
    SLOAD,
    /// Takes 2 slots and leaves 0.
    SSTORE,
    /// Takes 1 slot and leaves 0.
    JUMP,
    /// Takes 2 slots and leaves 0.
    JUMPI,
    /// Takes 0 slots and leaves 1.
    PC,
    /// Takes 0 slots and leaves 1.
    MSIZE,
    /// Takes 0 slots and leaves 1.
    GAS,
    /// Takes 0 slots and leaves 0.
    JUMPDEST,
    /// Takes 2 slots and leaves 0.
    LOG0,
    /// Takes 3 slots and leaves 0.
    LOG1,
    /// Takes 4 slots and leaves 0.
    LOG2,
    /// Takes 5 slots and leaves 0.
    LOG3,
    /// Takes 6 slots and leaves 0.
    LOG4,
    /// Takes 3 slots and leaves 1.
    CREATE,
    /// Takes 7 slots and leaves 1.
    CALL,
    /// Takes 7 slots and leaves 1.
    CALLCODE,
    /// Takes 2 slots and leaves 0.
    RETURN,
    /// Takes 6 slots and leaves 1.
    DELEGATECALL,
    /// Takes 4 slots and leaves 1.
    CREATE2,
    /// Takes 6 slots and leaves 1.
    STATICCALL,
    /// Takes 2 slots and leaves 0.
    REVERT,
    /// Takes 0 slots and leaves 0.
    INVALID,
    /// Takes 1 slot and leaves 0.
    SELFDESTRUCT,
    /// Takes 0 slots and leaves 0.
    STOP,
}

impl InstructionName {
    /// Whether the instruction ends control flow unconditionally, and so
    /// seals the block that holds it.
    pub open spec fn is_terminator(self) -> bool {
        self == InstructionName::RETURN || self == InstructionName::REVERT || self
            == InstructionName::STOP || self == InstructionName::INVALID || self
            == InstructionName::JUMP
    }

    /// Whether the instruction transfers control to the block named by the
    /// top slot of the stack.
    pub open spec fn is_jump(self) -> bool {
        self == InstructionName::JUMP || self == InstructionName::JUMPI
    }

    /// For `DUP1` to `DUP16`, the number in the name: the slot copied,
    /// counted from the top, the top slot being 1.
    pub open spec fn dup_depth(self) -> Option<nat> {
        match self {
            InstructionName::DUP1 => Some(1),
            InstructionName::DUP2 => Some(2),
            InstructionName::DUP3 => Some(3),
            InstructionName::DUP4 => Some(4),
            InstructionName::DUP5 => Some(5),
            InstructionName::DUP6 => Some(6),
            InstructionName::DUP7 => Some(7),
            InstructionName::DUP8 => Some(8),
            InstructionName::DUP9 => Some(9),
            InstructionName::DUP10 => Some(10),
            InstructionName::DUP11 => Some(11),
            InstructionName::DUP12 => Some(12),
            InstructionName::DUP13 => Some(13),
            InstructionName::DUP14 => Some(14),
            InstructionName::DUP15 => Some(15),
            InstructionName::DUP16 => Some(16),
            _ => None,
        }
    }

    /// For `SWAP1` to `SWAP16`, the number in the name: how far below the top
    /// the slot lies that changes places with the top slot.
    pub open spec fn swap_depth(self) -> Option<nat> {
        match self {
            InstructionName::SWAP1 => Some(1),
            InstructionName::SWAP2 => Some(2),
            InstructionName::SWAP3 => Some(3),
            InstructionName::SWAP4 => Some(4),
            InstructionName::SWAP5 => Some(5),
            InstructionName::SWAP6 => Some(6),
            InstructionName::SWAP7 => Some(7),
            InstructionName::SWAP8 => Some(8),
            InstructionName::SWAP9 => Some(9),
            InstructionName::SWAP10 => Some(10),
            InstructionName::SWAP11 => Some(11),
            InstructionName::SWAP12 => Some(12),
            InstructionName::SWAP13 => Some(13),
            InstructionName::SWAP14 => Some(14),
            InstructionName::SWAP15 => Some(15),
            InstructionName::SWAP16 => Some(16),
            _ => None,
        }
    }

    /// How many slots the instruction needs on the stack. `DUPn` needs `n`,
    /// `SWAPn` needs `n + 1`; every other instruction needs the slots it takes.
    pub open spec fn inputs(self) -> nat {
        match self {
            InstructionName::Tag | InstructionName::PUSH | InstructionName::ADDRESS
            | InstructionName::ORIGIN | InstructionName::CALLER | InstructionName::CALLVALUE
            | InstructionName::CALLDATASIZE | InstructionName::CODESIZE
            | InstructionName::GASPRICE | InstructionName::RETURNDATASIZE
            | InstructionName::COINBASE | InstructionName::TIMESTAMP | InstructionName::NUMBER
            | InstructionName::DIFFICULTY | InstructionName::GASLIMIT
            | InstructionName::CHAINID | InstructionName::SELFBALANCE
            | InstructionName::BASEFEE | InstructionName::PC | InstructionName::MSIZE
            | InstructionName::GAS | InstructionName::JUMPDEST | InstructionName::INVALID
            | InstructionName::STOP => 0,
            InstructionName::POP | InstructionName::ISZERO | InstructionName::NOT
            | InstructionName::BALANCE | InstructionName::CALLDATALOAD
            | InstructionName::EXTCODESIZE | InstructionName::EXTCODEHASH
            | InstructionName::BLOCKHASH | InstructionName::MLOAD | InstructionName::SLOAD
            | InstructionName::JUMP | InstructionName::SELFDESTRUCT => 1,
            InstructionName::ADD | InstructionName::MUL | InstructionName::SUB
            | InstructionName::DIV | InstructionName::SDIV | InstructionName::MOD
            | InstructionName::SMOD | InstructionName::EXP | InstructionName::SIGNEXTEND
            | InstructionName::LT | InstructionName::GT | InstructionName::SLT
            | InstructionName::SGT | InstructionName::EQ | InstructionName::AND
            | InstructionName::OR | InstructionName::XOR | InstructionName::BYTE
            | InstructionName::SHL | InstructionName::SHR | InstructionName::SAR
            | InstructionName::KECCAK256 | InstructionName::MSTORE | InstructionName::MSTORE8
            | InstructionName::SSTORE | InstructionName::JUMPI | InstructionName::LOG0
            | InstructionName::RETURN | InstructionName::REVERT => 2,
            InstructionName::ADDMOD | InstructionName::MULMOD | InstructionName::CALLDATACOPY
            | InstructionName::CODECOPY | InstructionName::RETURNDATACOPY
            | InstructionName::LOG1 | InstructionName::CREATE => 3,
            InstructionName::EXTCODECOPY | InstructionName::LOG2 | InstructionName::CREATE2 => 4,
            InstructionName::LOG3 => 5,
            InstructionName::LOG4 | InstructionName::DELEGATECALL | InstructionName::STATICCALL => 6,
            InstructionName::CALL | InstructionName::CALLCODE => 7,
            _ => match self.dup_depth() {
                Some(depth) => depth,
                None => match self.swap_depth() {
                    Some(depth) => depth + 1,
                    None => 0,
                },
            },
        }
    }

    /// How many slots stand in place of the inputs afterwards. `DUPn` leaves
    /// `n + 1`, `SWAPn` leaves `n + 1`.
    pub open spec fn outputs(self) -> nat {
        match self {
            InstructionName::Tag | InstructionName::POP | InstructionName::CALLDATACOPY
            | InstructionName::CODECOPY | InstructionName::EXTCODECOPY
            | InstructionName::RETURNDATACOPY | InstructionName::MSTORE
            | InstructionName::MSTORE8 | InstructionName::SSTORE | InstructionName::JUMP
            | InstructionName::JUMPI | InstructionName::JUMPDEST | InstructionName::LOG0
            | InstructionName::LOG1 | InstructionName::LOG2 | InstructionName::LOG3
            | InstructionName::LOG4 | InstructionName::RETURN | InstructionName::REVERT
            | InstructionName::INVALID | InstructionName::SELFDESTRUCT | InstructionName::STOP => 0,
            InstructionName::PUSH | InstructionName::ADD | InstructionName::MUL
            | InstructionName::SUB | InstructionName::DIV | InstructionName::SDIV
            | InstructionName::MOD | InstructionName::SMOD | InstructionName::ADDMOD
            | InstructionName::MULMOD | InstructionName::EXP | InstructionName::SIGNEXTEND
            | InstructionName::LT | InstructionName::GT | InstructionName::SLT
            | InstructionName::SGT | InstructionName::EQ | InstructionName::ISZERO
            | InstructionName::AND | InstructionName::OR | InstructionName::XOR
            | InstructionName::NOT | InstructionName::BYTE | InstructionName::SHL
            | InstructionName::SHR | InstructionName::SAR | InstructionName::KECCAK256
            | InstructionName::ADDRESS | InstructionName::BALANCE | InstructionName::ORIGIN
            | InstructionName::CALLER | InstructionName::CALLVALUE
            | InstructionName::CALLDATALOAD | InstructionName::CALLDATASIZE
            | InstructionName::CODESIZE | InstructionName::GASPRICE
            | InstructionName::EXTCODESIZE | InstructionName::RETURNDATASIZE
            | InstructionName::EXTCODEHASH | InstructionName::BLOCKHASH
            | InstructionName::COINBASE | InstructionName::TIMESTAMP | InstructionName::NUMBER
            | InstructionName::DIFFICULTY | InstructionName::GASLIMIT
            | InstructionName::CHAINID | InstructionName::SELFBALANCE
            | InstructionName::BASEFEE | InstructionName::MLOAD | InstructionName::SLOAD
            | InstructionName::PC | InstructionName::MSIZE | InstructionName::GAS
            | InstructionName::CREATE | InstructionName::CALL | InstructionName::CALLCODE
            | InstructionName::DELEGATECALL | InstructionName::CREATE2
            | InstructionName::STATICCALL => 1,
            _ => match self.dup_depth() {
                Some(depth) => depth + 1,
                None => match self.swap_depth() {
                    Some(depth) => depth + 1,
                    None => 0,
                },
            },
        }
    }

    /// The change in the depth of the stack that the instruction causes.
    pub open spec fn stack_delta(self) -> int {
        self.outputs() - self.inputs()
    }

    /// The name as the assembly writes it.
    pub open spec fn mnemonic(self) -> Seq<char> {
        match self {
            InstructionName::Tag => "Tag"@,
            InstructionName::PUSH => "PUSH"@,
            InstructionName::DUP1 => "DUP1"@,
            InstructionName::DUP2 => "DUP2"@,
            InstructionName::DUP3 => "DUP3"@,
            InstructionName::DUP4 => "DUP4"@,
            InstructionName::DUP5 => "DUP5"@,
            InstructionName::DUP6 => "DUP6"@,
            InstructionName::DUP7 => "DUP7"@,
            InstructionName::DUP8 => "DUP8"@,
            InstructionName::DUP9 => "DUP9"@,
            InstructionName::DUP10 => "DUP10"@,
            InstructionName::DUP11 => "DUP11"@,
            InstructionName::DUP12 => "DUP12"@,
            InstructionName::DUP13 => "DUP13"@,
            InstructionName::DUP14 => "DUP14"@,
            InstructionName::DUP15 => "DUP15"@,
            InstructionName::DUP16 => "DUP16"@,
            InstructionName::SWAP1 => "SWAP1"@,
            InstructionName::SWAP2 => "SWAP2"@,
            InstructionName::SWAP3 => "SWAP3"@,
            InstructionName::SWAP4 => "SWAP4"@,
            InstructionName::SWAP5 => "SWAP5"@,
            InstructionName::SWAP6 => "SWAP6"@,
            InstructionName::SWAP7 => "SWAP7"@,
            InstructionName::SWAP8 => "SWAP8"@,
            InstructionName::SWAP9 => "SWAP9"@,
            InstructionName::SWAP10 => "SWAP10"@,
            InstructionName::SWAP11 => "SWAP11"@,
            InstructionName::SWAP12 => "SWAP12"@,
            InstructionName::SWAP13 => "SWAP13"@,
            InstructionName::SWAP14 => "SWAP14"@,
            InstructionName::SWAP15 => "SWAP15"@,
            InstructionName::SWAP16 => "SWAP16"@,
            InstructionName::POP => "POP"@,
            InstructionName::ADD => "ADD"@,
            InstructionName::MUL => "MUL"@,
            InstructionName::SUB => "SUB"@,
            InstructionName::DIV => "DIV"@,
            InstructionName::SDIV => "SDIV"@,
            InstructionName::MOD => "MOD"@,
            InstructionName::SMOD => "SMOD"@,
            InstructionName::ADDMOD => "ADDMOD"@,
            InstructionName::MULMOD => "MULMOD"@,
            InstructionName::EXP => "EXP"@,
            InstructionName::SIGNEXTEND => "SIGNEXTEND"@,
            InstructionName::LT => "LT"@,
            InstructionName::GT => "GT"@,
            InstructionName::SLT => "SLT"@,
            InstructionName::SGT => "SGT"@,
            InstructionName::EQ => "EQ"@,
            InstructionName::ISZERO => "ISZERO"@,
            InstructionName::AND => "AND"@,
            InstructionName::OR => "OR"@,
            InstructionName::XOR => "XOR"@,
            InstructionName::NOT => "NOT"@,
            InstructionName::BYTE => "BYTE"@,
            InstructionName::SHL => "SHL"@,
            InstructionName::SHR => "SHR"@,
            InstructionName::SAR => "SAR"@,
            InstructionName::KECCAK256 => "KECCAK256"@,
            InstructionName::ADDRESS => "ADDRESS"@,
            InstructionName::BALANCE => "BALANCE"@,
            InstructionName::ORIGIN => "ORIGIN"@,
            InstructionName::CALLER => "CALLER"@,
            InstructionName::CALLVALUE => "CALLVALUE"@,
            InstructionName::CALLDATALOAD => "CALLDATALOAD"@,
            InstructionName::CALLDATASIZE => "CALLDATASIZE"@,
            InstructionName::CALLDATACOPY => "CALLDATACOPY"@,
            InstructionName::CODESIZE => "CODESIZE"@,
            InstructionName::CODECOPY => "CODECOPY"@,
            InstructionName::GASPRICE => "GASPRICE"@,
            InstructionName::EXTCODESIZE => "EXTCODESIZE"@,
            InstructionName::EXTCODECOPY => "EXTCODECOPY"@,
            InstructionName::RETURNDATASIZE => "RETURNDATASIZE"@,
            InstructionName::RETURNDATACOPY => "RETURNDATACOPY"@,
            InstructionName::EXTCODEHASH => "EXTCODEHASH"@,
            InstructionName::BLOCKHASH => "BLOCKHASH"@,
            InstructionName::COINBASE => "COINBASE"@,
            InstructionName::TIMESTAMP => "TIMESTAMP"@,
            InstructionName::NUMBER => "NUMBER"@,
            InstructionName::DIFFICULTY => "DIFFICULTY"@,
            InstructionName::GASLIMIT => "GASLIMIT"@,
            InstructionName::CHAINID => "CHAINID"@,
            InstructionName::SELFBALANCE => "SELFBALANCE"@,
            InstructionName::BASEFEE => "BASEFEE"@,
            InstructionName::MLOAD => "MLOAD"@,
            InstructionName::MSTORE => "MSTORE"@,
            InstructionName::MSTORE8 => "MSTORE8"@,
            InstructionName::SLOAD => "SLOAD"@,
            InstructionName::SSTORE => "SSTORE"@,
            InstructionName::JUMP => "JUMP"@,
            InstructionName::JUMPI => "JUMPI"@,
            InstructionName::PC => "PC"@,
            InstructionName::MSIZE => "MSIZE"@,
            InstructionName::GAS => "GAS"@,
            InstructionName::JUMPDEST => "JUMPDEST"@,
            InstructionName::LOG0 => "LOG0"@,
            InstructionName::LOG1 => "LOG1"@,
            InstructionName::LOG2 => "LOG2"@,
            InstructionName::LOG3 => "LOG3"@,
            InstructionName::LOG4 => "LOG4"@,
            InstructionName::CREATE => "CREATE"@,
            InstructionName::CALL => "CALL"@,
            InstructionName::CALLCODE => "CALLCODE"@,
            InstructionName::RETURN => "RETURN"@,
            InstructionName::DELEGATECALL => "DELEGATECALL"@,
            InstructionName::CREATE2 => "CREATE2"@,
            InstructionName::STATICCALL => "STATICCALL"@,
            InstructionName::REVERT => "REVERT"@,
            InstructionName::INVALID => "INVALID"@,
            InstructionName::SELFDESTRUCT => "SELFDESTRUCT"@,
            InstructionName::STOP => "STOP"@,
        }
    }

    /// Whether the instruction seals the block that holds it.
    pub fn ends_block(self) -> (sealed: bool)
        ensures
            sealed == self.is_terminator(),
    {
        match self {
            InstructionName::RETURN
            | InstructionName::REVERT
            | InstructionName::STOP
            | InstructionName::INVALID
            | InstructionName::JUMP => true,
            _ => false,
        }
    }

    /// Whether the instruction is `JUMP` or `JUMPI`.
    pub fn jumps(self) -> (jump: bool)
        ensures
            jump == self.is_jump(),
    {
        match self {
            InstructionName::JUMP | InstructionName::JUMPI => true,
            _ => false,
        }
    }

    /// The number in the name of a `DUP` instruction.
    pub fn duplicated(self) -> (depth: Option<usize>)
        ensures
            match depth {
                Some(depth) => self.dup_depth() == Some(depth as nat),
                None => self.dup_depth() is None,
            },
    {
        match self {
            InstructionName::DUP1 => Some(1),
            InstructionName::DUP2 => Some(2),
            InstructionName::DUP3 => Some(3),
            InstructionName::DUP4 => Some(4),
            InstructionName::DUP5 => Some(5),
            InstructionName::DUP6 => Some(6),
            InstructionName::DUP7 => Some(7),
            InstructionName::DUP8 => Some(8),
            InstructionName::DUP9 => Some(9),
            InstructionName::DUP10 => Some(10),
            InstructionName::DUP11 => Some(11),
            InstructionName::DUP12 => Some(12),
            InstructionName::DUP13 => Some(13),
            InstructionName::DUP14 => Some(14),
            InstructionName::DUP15 => Some(15),
            InstructionName::DUP16 => Some(16),
            _ => None,
        }
    }

    /// The number in the name of a `SWAP` instruction.
    pub fn swapped(self) -> (depth: Option<usize>)
        ensures
            match depth {
                Some(depth) => self.swap_depth() == Some(depth as nat),
                None => self.swap_depth() is None,
            },
    {
        match self {
            InstructionName::SWAP1 => Some(1),
            InstructionName::SWAP2 => Some(2),
            InstructionName::SWAP3 => Some(3),
            InstructionName::SWAP4 => Some(4),
            InstructionName::SWAP5 => Some(5),
            InstructionName::SWAP6 => Some(6),
            InstructionName::SWAP7 => Some(7),
            InstructionName::SWAP8 => Some(8),
            InstructionName::SWAP9 => Some(9),
            InstructionName::SWAP10 => Some(10),
            InstructionName::SWAP11 => Some(11),
            InstructionName::SWAP12 => Some(12),
            InstructionName::SWAP13 => Some(13),
            InstructionName::SWAP14 => Some(14),
            InstructionName::SWAP15 => Some(15),
            InstructionName::SWAP16 => Some(16),
            _ => None,
        }
    }

    /// How many slots the instruction needs on the stack.
    pub fn input_count(self) -> (count: usize)
        ensures
            count == self.inputs(),
            count <= 17,
    {
        match self {
            InstructionName::Tag | InstructionName::PUSH | InstructionName::ADDRESS
            | InstructionName::ORIGIN | InstructionName::CALLER | InstructionName::CALLVALUE
            | InstructionName::CALLDATASIZE | InstructionName::CODESIZE
            | InstructionName::GASPRICE | InstructionName::RETURNDATASIZE
            | InstructionName::COINBASE | InstructionName::TIMESTAMP | InstructionName::NUMBER
            | InstructionName::DIFFICULTY | InstructionName::GASLIMIT
            | InstructionName::CHAINID | InstructionName::SELFBALANCE
            | InstructionName::BASEFEE | InstructionName::PC | InstructionName::MSIZE
            | InstructionName::GAS | InstructionName::JUMPDEST | InstructionName::INVALID
            | InstructionName::STOP => 0,
            InstructionName::POP | InstructionName::ISZERO | InstructionName::NOT
            | InstructionName::BALANCE | InstructionName::CALLDATALOAD
            | InstructionName::EXTCODESIZE | InstructionName::EXTCODEHASH
            | InstructionName::BLOCKHASH | InstructionName::MLOAD | InstructionName::SLOAD
            | InstructionName::JUMP | InstructionName::SELFDESTRUCT => 1,
            InstructionName::ADD | InstructionName::MUL | InstructionName::SUB
            | InstructionName::DIV | InstructionName::SDIV | InstructionName::MOD
            | InstructionName::SMOD | InstructionName::EXP | InstructionName::SIGNEXTEND
            | InstructionName::LT | InstructionName::GT | InstructionName::SLT
            | InstructionName::SGT | InstructionName::EQ | InstructionName::AND
            | InstructionName::OR | InstructionName::XOR | InstructionName::BYTE
            | InstructionName::SHL | InstructionName::SHR | InstructionName::SAR
            | InstructionName::KECCAK256 | InstructionName::MSTORE | InstructionName::MSTORE8
            | InstructionName::SSTORE | InstructionName::JUMPI | InstructionName::LOG0
            | InstructionName::RETURN | InstructionName::REVERT => 2,
            InstructionName::ADDMOD | InstructionName::MULMOD | InstructionName::CALLDATACOPY
            | InstructionName::CODECOPY | InstructionName::RETURNDATACOPY
            | InstructionName::LOG1 | InstructionName::CREATE => 3,
            InstructionName::EXTCODECOPY | InstructionName::LOG2 | InstructionName::CREATE2 => 4,
            InstructionName::LOG3 => 5,
            InstructionName::LOG4 | InstructionName::DELEGATECALL | InstructionName::STATICCALL => 6,
            InstructionName::CALL | InstructionName::CALLCODE => 7,
            _ => match self.duplicated() {
                Some(depth) => depth,
                None => match self.swapped() {
                    Some(depth) => depth + 1,
                    None => 0,
                },
            },
        }
    }

    /// How many slots stand in place of the inputs afterwards.
    pub fn output_count(self) -> (count: usize)
        ensures
            count == self.outputs(),
            count <= 17,
    {
        match self {
            InstructionName::Tag | InstructionName::POP | InstructionName::CALLDATACOPY
            | InstructionName::CODECOPY | InstructionName::EXTCODECOPY
            | InstructionName::RETURNDATACOPY | InstructionName::MSTORE
            | InstructionName::MSTORE8 | InstructionName::SSTORE | InstructionName::JUMP
            | InstructionName::JUMPI | InstructionName::JUMPDEST | InstructionName::LOG0
            | InstructionName::LOG1 | InstructionName::LOG2 | InstructionName::LOG3
            | InstructionName::LOG4 | InstructionName::RETURN | InstructionName::REVERT
            | InstructionName::INVALID | InstructionName::SELFDESTRUCT | InstructionName::STOP => 0,
            InstructionName::PUSH | InstructionName::ADD | InstructionName::MUL
            | InstructionName::SUB | InstructionName::DIV | InstructionName::SDIV
            | InstructionName::MOD | InstructionName::SMOD | InstructionName::ADDMOD
            | InstructionName::MULMOD | InstructionName::EXP | InstructionName::SIGNEXTEND
            | InstructionName::LT | InstructionName::GT | InstructionName::SLT
            | InstructionName::SGT | InstructionName::EQ | InstructionName::ISZERO
            | InstructionName::AND | InstructionName::OR | InstructionName::XOR
            | InstructionName::NOT | InstructionName::BYTE | InstructionName::SHL
            | InstructionName::SHR | InstructionName::SAR | InstructionName::KECCAK256
            | InstructionName::ADDRESS | InstructionName::BALANCE | InstructionName::ORIGIN
            | InstructionName::CALLER | InstructionName::CALLVALUE
            | InstructionName::CALLDATALOAD | InstructionName::CALLDATASIZE
            | InstructionName::CODESIZE | InstructionName::GASPRICE
            | InstructionName::EXTCODESIZE | InstructionName::RETURNDATASIZE
            | InstructionName::EXTCODEHASH | InstructionName::BLOCKHASH
            | InstructionName::COINBASE | InstructionName::TIMESTAMP | InstructionName::NUMBER
            | InstructionName::DIFFICULTY | InstructionName::GASLIMIT
            | InstructionName::CHAINID | InstructionName::SELFBALANCE
            | InstructionName::BASEFEE | InstructionName::MLOAD | InstructionName::SLOAD
            | InstructionName::PC | InstructionName::MSIZE | InstructionName::GAS
            | InstructionName::CREATE | InstructionName::CALL | InstructionName::CALLCODE
            | InstructionName::DELEGATECALL | InstructionName::CREATE2
            | InstructionName::STATICCALL => 1,
            _ => match self.duplicated() {
                Some(depth) => depth + 1,
                None => match self.swapped() {
                    Some(depth) => depth + 1,
                    None => 0,
                },
            },
        }
    }

    /// The name as the assembly writes it.
    pub fn to_text(self) -> (text: &'static str)
        ensures
            text@ == self.mnemonic(),
    {
        match self {
            InstructionName::Tag => "Tag",
            InstructionName::PUSH => "PUSH",
            InstructionName::DUP1 => "DUP1",
            InstructionName::DUP2 => "DUP2",
            InstructionName::DUP3 => "DUP3",
            InstructionName::DUP4 => "DUP4",
            InstructionName::DUP5 => "DUP5",
            InstructionName::DUP6 => "DUP6",
            InstructionName::DUP7 => "DUP7",
            InstructionName::DUP8 => "DUP8",
            InstructionName::DUP9 => "DUP9",
            InstructionName::DUP10 => "DUP10",
            InstructionName::DUP11 => "DUP11",
            InstructionName::DUP12 => "DUP12",
            InstructionName::DUP13 => "DUP13",
            InstructionName::DUP14 => "DUP14",
            InstructionName::DUP15 => "DUP15",
            InstructionName::DUP16 => "DUP16",
            InstructionName::SWAP1 => "SWAP1",
            InstructionName::SWAP2 => "SWAP2",
            InstructionName::SWAP3 => "SWAP3",
            InstructionName::SWAP4 => "SWAP4",
            InstructionName::SWAP5 => "SWAP5",
            InstructionName::SWAP6 => "SWAP6",
            InstructionName::SWAP7 => "SWAP7",
            InstructionName::SWAP8 => "SWAP8",
            InstructionName::SWAP9 => "SWAP9",
            InstructionName::SWAP10 => "SWAP10",
            InstructionName::SWAP11 => "SWAP11",
            InstructionName::SWAP12 => "SWAP12",
            InstructionName::SWAP13 => "SWAP13",
            InstructionName::SWAP14 => "SWAP14",
            InstructionName::SWAP15 => "SWAP15",
            InstructionName::SWAP16 => "SWAP16",
            InstructionName::POP => "POP",
            InstructionName::ADD => "ADD",
            InstructionName::MUL => "MUL",
            InstructionName::SUB => "SUB",
            InstructionName::DIV => "DIV",
            InstructionName::SDIV => "SDIV",
            InstructionName::MOD => "MOD",
            InstructionName::SMOD => "SMOD",
            InstructionName::ADDMOD => "ADDMOD",
            InstructionName::MULMOD => "MULMOD",
            InstructionName::EXP => "EXP",
            InstructionName::SIGNEXTEND => "SIGNEXTEND",
            InstructionName::LT => "LT",
            InstructionName::GT => "GT",
            InstructionName::SLT => "SLT",
            InstructionName::SGT => "SGT",
            InstructionName::EQ => "EQ",
            InstructionName::ISZERO => "ISZERO",
            InstructionName::AND => "AND",
            InstructionName::OR => "OR",
            InstructionName::XOR => "XOR",
            InstructionName::NOT => "NOT",
            InstructionName::BYTE => "BYTE",
            InstructionName::SHL => "SHL",
            InstructionName::SHR => "SHR",
            InstructionName::SAR => "SAR",
            InstructionName::KECCAK256 => "KECCAK256",
            InstructionName::ADDRESS => "ADDRESS",
            InstructionName::BALANCE => "BALANCE",
            InstructionName::ORIGIN => "ORIGIN",
            InstructionName::CALLER => "CALLER",
            InstructionName::CALLVALUE => "CALLVALUE",
            InstructionName::CALLDATALOAD => "CALLDATALOAD",
            InstructionName::CALLDATASIZE => "CALLDATASIZE",
            InstructionName::CALLDATACOPY => "CALLDATACOPY",
            InstructionName::CODESIZE => "CODESIZE",
            InstructionName::CODECOPY => "CODECOPY",
            InstructionName::GASPRICE => "GASPRICE",
            InstructionName::EXTCODESIZE => "EXTCODESIZE",
            InstructionName::EXTCODECOPY => "EXTCODECOPY",
            InstructionName::RETURNDATASIZE => "RETURNDATASIZE",
            InstructionName::RETURNDATACOPY => "RETURNDATACOPY",
            InstructionName::EXTCODEHASH => "EXTCODEHASH",
            InstructionName::BLOCKHASH => "BLOCKHASH",
            InstructionName::COINBASE => "COINBASE",
            InstructionName::TIMESTAMP => "TIMESTAMP",
            InstructionName::NUMBER => "NUMBER",
            InstructionName::DIFFICULTY => "DIFFICULTY",
            InstructionName::GASLIMIT => "GASLIMIT",
            InstructionName::CHAINID => "CHAINID",
            InstructionName::SELFBALANCE => "SELFBALANCE",
            InstructionName::BASEFEE => "BASEFEE",
            InstructionName::MLOAD => "MLOAD",
            InstructionName::MSTORE => "MSTORE",
            InstructionName::MSTORE8 => "MSTORE8",
            InstructionName::SLOAD => "SLOAD",
            InstructionName::SSTORE => "SSTORE",
            InstructionName::JUMP => "JUMP",
            InstructionName::JUMPI => "JUMPI",
            InstructionName::PC => "PC",
            InstructionName::MSIZE => "MSIZE",
            InstructionName::GAS => "GAS",
            InstructionName::JUMPDEST => "JUMPDEST",
            InstructionName::LOG0 => "LOG0",
            InstructionName::LOG1 => "LOG1",
            InstructionName::LOG2 => "LOG2",
            InstructionName::LOG3 => "LOG3",
            InstructionName::LOG4 => "LOG4",
            InstructionName::CREATE => "CREATE",
            InstructionName::CALL => "CALL",
            InstructionName::CALLCODE => "CALLCODE",
            InstructionName::RETURN => "RETURN",
            InstructionName::DELEGATECALL => "DELEGATECALL",
            InstructionName::CREATE2 => "CREATE2",
            InstructionName::STATICCALL => "STATICCALL",
            InstructionName::REVERT => "REVERT",
            InstructionName::INVALID => "INVALID",
            InstructionName::SELFDESTRUCT => "SELFDESTRUCT",
            InstructionName::STOP => "STOP",
        }
    }
}

/// An instruction as contracts see it: its name and the characters of its
/// operand.
pub struct InstructionView {
    pub name: InstructionName,
    pub value: Option<Seq<char>>,
}

/// One instruction of the stream: a name and, for some names, a literal
/// operand in text form (a tag number, a value to push).
#[derive(Debug)]
pub struct Instruction {
    /// The name of the instruction.
    pub name: InstructionName,
    /// The operand, where the instruction has one.
    pub value: Option<String>,
}

impl View for Instruction {
    type V = InstructionView;

    open spec fn view(&self) -> InstructionView {
        InstructionView {
            name: self.name,
            value: match self.value {
                Some(value) => Some(value@),
                None => None,
            },
        }
    }
}

impl Instruction {
    /// An instruction from its name and its operand.
    pub fn new(name: InstructionName, value: Option<String>) -> (instruction: Instruction)
        ensures
            instruction.name == name,
            instruction.value == value,
    {
        Instruction { name, value }
    }

    /// The views of a run of instructions.
    pub open spec fn views(instructions: Seq<Instruction>) -> Seq<InstructionView> {
        Seq::new(instructions.len(), |i: int| instructions[i]@)
    }
}

impl Clone for Instruction {
    fn clone(&self) -> (copy: Instruction)
        ensures
            copy@ == self@,
    {
        let value = match &self.value {
            Some(value) => Some(value.clone()),
            None => None,
        };
        Instruction { name: self.name, value }
    }
}

} // verus!
