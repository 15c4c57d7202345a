//! The text form of blocks, for diagnostics: the same state always reads the
//! same.

use vstd::prelude::*;
use crate::block::Block;
use crate::instruction::{Instruction, InstructionView};
use crate::key::FunctionBlockKey;
use crate::numeral::{decimal_numeral, decimal_text};
use crate::predecessors::Edge;

verus! {

/// An instruction in text: its name and, behind a space, its operand where
/// it has one.
pub open spec fn instruction_text(instruction: InstructionView) -> Seq<char> {
    match instruction.value {
        Some(value) => instruction.name.mnemonic() + " "@ + value,
        None => instruction.name.mnemonic(),
    }
}

/// A predecessor in text: the label of its key, a slash and its instance.
pub open spec fn edge_text(edge: Edge) -> Seq<char> {
    FunctionBlockKey::label(edge.0) + "/"@ + decimal_numeral(edge.1 as nat)
}

/// Predecessors in text, with a comma and a space between one and the next.
pub open spec fn edges_text(edges: Seq<Edge>) -> Seq<char>
    decreases edges.len(),
{
    if edges.len() == 0 {
        Seq::empty()
    } else if edges.len() == 1 {
        edge_text(edges[0])
    } else {
        edges_text(edges.drop_last()) + ", "@ + edge_text(edges.last())
    }
}

/// Instructions in text, one to a line, each indented by four spaces.
pub open spec fn lines_text(instructions: Seq<InstructionView>) -> Seq<char>
    decreases instructions.len(),
{
    if instructions.len() == 0 {
        Seq::empty()
    } else {
        lines_text(instructions.drop_last()) + "    "@ + instruction_text(instructions.last())
            + "\n"@
    }
}

/// The first line of a block in text: its label, which is `block_`, the
/// label of its key, a slash and its instance; a colon and a space; and its
/// predecessors in brackets, where it has any.
pub open spec fn heading_text(edge: Edge, predecessors: Seq<Edge>) -> Seq<char> {
    let listed = if predecessors.len() == 0 {
        Seq::<char>::empty()
    } else {
        "(predecessors: "@ + edges_text(predecessors) + ")"@
    };
    "block_"@ + edge_text(edge) + ": "@ + listed + "\n"@
}

impl Instruction {
    /// The instruction in text.
    pub fn to_text(&self) -> (text: String)
        ensures
            text@ == instruction_text(self@),
    {
        let mut text = self.name.to_text().to_owned();
        if let Some(value) = &self.value {
            text.append(" ");
            text.append(value.as_str());
        }
        text
    }
}

impl Block {
    /// The block in text: its heading, then its elements, one to a line. The
    /// predecessors stand in the order in which they were inserted.
    pub open spec fn rendering(&self) -> Seq<char> {
        heading_text(self.edge(), self.predecessors.ordered()) + lines_text(self.instructions())
    }

    /// The block in text.
    pub fn to_text(&self) -> (text: String)
        ensures
            text@ == self.rendering(),
    {
        let instance: usize = match self.instance {
            Some(instance) => instance,
            None => 0,
        };
        let mut text = "block_".to_owned();
        text.append(self.key.to_text().as_str());
        text.append("/");
        text.append(decimal_text(instance).as_str());
        text.append(": ");
        let ghost opening = "block_"@ + edge_text(self.edge()) + ": "@;
        assert(text@ =~= opening);
        let ghost ordered = self.predecessors.ordered();
        let count: usize = self.predecessors.len();
        if count > 0 {
            text.append("(predecessors: ");
            let mut index: usize = 0;
            assert(ordered.take(0) =~= Seq::<Edge>::empty());
            while index < count
                invariant
                    ordered == self.predecessors.ordered(),
                    count == ordered.len(),
                    index <= count,
                    text@ == opening + "(predecessors: "@ + edges_text(ordered.take(index as int)),
                decreases count - index,
            {
                let ghost before = text@;
                let entry = self.predecessors.get(index);
                if index > 0 {
                    text.append(", ");
                }
                text.append(entry.0.to_text().as_str());
                text.append("/");
                text.append(decimal_text(entry.1).as_str());
                proof {
                    let shorter = ordered.take(index as int);
                    let longer = ordered.take(index + 1);
                    assert(longer.drop_last() =~= shorter);
                    assert(longer.last() == ordered[index as int]);
                    if index == 0 {
                        assert(edges_text(shorter) =~= Seq::<char>::empty());
                        assert(text@ =~= before + edge_text(ordered[0]));
                    } else {
                        assert(text@ =~= before + ", "@ + edge_text(ordered[index as int]));
                    }
                    assert(text@ =~= opening + "(predecessors: "@ + edges_text(longer));
                }
                index += 1;
            }
            text.append(")");
            assert(ordered.take(count as int) =~= ordered);
        }
        text.append("\n");
        let ghost heading = heading_text(self.edge(), ordered);
        assert(text@ =~= heading);
        let ghost stream = self.instructions();
        let total: usize = self.elements.len();
        let mut line: usize = 0;
        assert(stream.take(0) =~= Seq::<InstructionView>::empty());
        assert(text@ =~= heading + lines_text(stream.take(0)));
        while line < total
            invariant
                stream == self.instructions(),
                total == self.elements@.len(),
                line <= total,
                text@ == heading + lines_text(stream.take(line as int)),
            decreases total - line,
        {
            let ghost before = text@;
            text.append("    ");
            text.append(self.elements[line].instruction.to_text().as_str());
            text.append("\n");
            proof {
                let longer = stream.take(line + 1);
                assert(longer.drop_last() =~= stream.take(line as int));
                assert(longer.last() == stream[line as int]);
                assert(text@ =~= before + "    "@ + instruction_text(stream[line as int]) + "\n"@);
                assert(text@ =~= heading + lines_text(longer));
            }
            line += 1;
        }
        assert(stream.take(total as int) =~= stream);
        text
    }
}

} // verus!
