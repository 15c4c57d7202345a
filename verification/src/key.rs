//! Block identity: the code region a block belongs to and its numeric tag.

use vstd::prelude::*;
use vstd::std_specs::cmp::PartialEqSpecImpl;
use crate::bindings::{parse_tag_numeral, tag_number, zero_tag_numeral};
use crate::numeral::{
    decimal_numeral,
    is_numeral,
    lemma_decimal_numeral,
    lemma_numeral_injective,
    numeral_value,
};

verus! {

/// One of the two code regions of a compiled unit.
#[derive(Debug, Clone, Copy, PartialEq, Eq, Hash, Structural)]
pub enum CodeType {
    /// The deploy-time code.
    Deploy,
    /// The run-time code.
    Runtime,
}

impl CodeType {
    /// The short name of the region in block labels.
    pub open spec fn label(self) -> Seq<char> {
        match self {
            CodeType::Deploy => "dt"@,
            CodeType::Runtime => "rt"@,
        }
    }

    /// The short name of the region in block labels.
    pub fn to_text(self) -> (text: String)
        ensures
            text@ == self.label(),
    {
        match self {
            CodeType::Deploy => "dt".to_owned(),
            CodeType::Runtime => "rt".to_owned(),
        }
    }
}

/// A block tag: a natural number of any size, numbered within its region.
/// Tag zero names the block that opens a region without a tag of its own.
#[derive(Debug)]
pub struct Tag {
    digits: String,
}

impl View for Tag {
    type V = nat;

    closed spec fn view(&self) -> nat {
        numeral_value(self.digits@)
    }
}

impl Tag {
    #[verifier::type_invariant]
    spec fn canonical(&self) -> bool {
        is_numeral(self.digits@)
    }

    /// Tag zero.
    pub fn zero() -> (tag: Tag)
        ensures
            tag@ == 0,
    {
        let digits = zero_tag_numeral();
        proof {
            assert(digits@.drop_last().len() == 0);
            assert(numeral_value(digits@) == numeral_value(digits@.drop_last()) * 10
                + crate::numeral::digit_value(digits@.last()));
        }
        Tag { digits }
    }

    /// Reads a tag from the operand of an instruction. `None` where the text
    /// is no number. A canonical decimal numeral is always read, as the
    /// number that it denotes.
    pub fn parse(text: &str) -> (tag: Option<Tag>)
        ensures
            match tag {
                Some(tag) => tag_number(text@) == Some(tag@),
                None => tag_number(text@) is None,
            },
            is_numeral(text@) ==> tag is Some && tag.unwrap()@ == numeral_value(text@),
    {
        match parse_tag_numeral(text) {
            Some(digits) => Some(Tag { digits }),
            None => None,
        }
    }

    /// The tag in decimal.
    pub fn to_text(&self) -> (text: String)
        ensures
            text@ == decimal_numeral(self@),
    {
        proof {
            use_type_invariant(self);
            lemma_decimal_numeral(self@);
            lemma_numeral_injective(self.digits@, decimal_numeral(self@));
        }
        self.digits.clone()
    }
}

impl Clone for Tag {
    fn clone(&self) -> (copy: Tag)
        ensures
            copy == *self,
    {
        proof {
            use_type_invariant(self);
        }
        Tag { digits: self.digits.clone() }
    }
}

impl PartialEq for Tag {
    fn eq(&self, other: &Tag) -> (same: bool) {
        proof {
            use_type_invariant(self);
            use_type_invariant(other);
            if self@ == other@ {
                lemma_numeral_injective(self.digits@, other.digits@);
            }
        }
        self.digits == other.digits
    }
}

impl PartialEqSpecImpl for Tag {
    open spec fn obeys_eq_spec() -> bool {
        true
    }

    open spec fn eq_spec(&self, other: &Tag) -> bool {
        self@ == other@
    }
}

impl Eq for Tag {}

/// The identity of a block: its region and its tag. Several instances of one
/// key may exist; an instance index tells them apart.
#[derive(Debug)]
pub struct FunctionBlockKey {
    /// The region that the block belongs to.
    pub code_type: CodeType,
    /// The tag of the block.
    pub tag: Tag,
}

impl View for FunctionBlockKey {
    type V = (CodeType, nat);

    open spec fn view(&self) -> (CodeType, nat) {
        (self.code_type, self.tag@)
    }
}

impl FunctionBlockKey {
    /// The label of a key: the short name of its region, an underscore, and
    /// its tag in decimal.
    pub open spec fn label(key: (CodeType, nat)) -> Seq<char> {
        key.0.label() + "_"@ + decimal_numeral(key.1)
    }

    /// A key from its two parts.
    pub fn new(code_type: CodeType, tag: Tag) -> (key: FunctionBlockKey)
        ensures
            key.code_type == code_type,
            key.tag == tag,
    {
        FunctionBlockKey { code_type, tag }
    }

    /// The label of the key.
    pub fn to_text(&self) -> (text: String)
        ensures
            text@ == Self::label(self@),
    {
        let mut text = self.code_type.to_text();
        text.append("_");
        let tag = self.tag.to_text();
        text.append(tag.as_str());
        text
    }
}

impl Clone for FunctionBlockKey {
    fn clone(&self) -> (copy: FunctionBlockKey)
        ensures
            copy == *self,
    {
        FunctionBlockKey { code_type: self.code_type, tag: self.tag.clone() }
    }
}

impl PartialEq for FunctionBlockKey {
    fn eq(&self, other: &FunctionBlockKey) -> (same: bool) {
        self.code_type == other.code_type && self.tag == other.tag
    }
}

impl PartialEqSpecImpl for FunctionBlockKey {
    open spec fn obeys_eq_spec() -> bool {
        true
    }

    open spec fn eq_spec(&self, other: &FunctionBlockKey) -> bool {
        self@ == other@
    }
}

impl Eq for FunctionBlockKey {}

} // verus!
