//! The failures of block construction, stack replay and graph assembly.

use vstd::prelude::*;

verus! {

/// Why a compile unit was rejected. Nothing is retried or repaired: each of
/// these ends the work on the unit.
#[derive(Debug, Clone, Copy, PartialEq, Eq, Hash, Structural)]
pub enum Error {
    /// A block was asked for from no instructions at all.
    EmptyInput,
    /// A tag marker carries no operand.
    MissingTag,
    /// The operand of a tag marker, or the constant that a jump takes as its
    /// target, is no number.
    InvalidTag,
    /// A block other than the first of its region begins with no tag marker.
    UntaggedBlock,
    /// Two blocks of one region carry the same tag.
    DuplicateKey,
    /// An instruction needs more slots than the stack holds.
    StackUnderflow,
    /// A jump names a tag that no block of the region carries.
    DanglingPredecessor,
}

/// The kinds of failure.
#[derive(Debug, Clone, Copy, PartialEq, Eq, Hash, Structural)]
pub enum ErrorClass {
    /// The instruction stream itself is ill-formed.
    MalformedInput,
    /// The stream asks for more than the operand stack holds.
    StackUnderflow,
    /// An edge of the graph leads nowhere.
    DanglingPredecessor,
}

/// A failure with the place where it was met: the block, counted in the order
/// of the stream, and the element, counted within its block, as far as the
/// operation that failed knows them.
#[derive(Debug, Clone, Copy, PartialEq, Eq, Hash, Structural)]
pub struct Failure {
    /// What went wrong.
    pub error: Error,
    /// The block that it went wrong in.
    pub block: Option<usize>,
    /// The element that it went wrong at.
    pub element: Option<usize>,
}

impl Error {
    /// The kind of failure that the error belongs to.
    pub open spec fn class_of(self) -> ErrorClass {
        match self {
            Error::EmptyInput
            | Error::MissingTag
            | Error::InvalidTag
            | Error::UntaggedBlock
            | Error::DuplicateKey =>
                ErrorClass::MalformedInput,
            Error::StackUnderflow => ErrorClass::StackUnderflow,
            Error::DanglingPredecessor => ErrorClass::DanglingPredecessor,
        }
    }

    /// The kind of failure that the error belongs to.
    pub fn class(self) -> (class: ErrorClass)
        ensures
            class == self.class_of(),
    {
        match self {
            Error::EmptyInput
            | Error::MissingTag
            | Error::InvalidTag
            | Error::UntaggedBlock
            | Error::DuplicateKey =>
                ErrorClass::MalformedInput,
            Error::StackUnderflow => ErrorClass::StackUnderflow,
            Error::DanglingPredecessor => ErrorClass::DanglingPredecessor,
        }
    }
}

} // verus!
