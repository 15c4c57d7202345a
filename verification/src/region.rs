//! Regions: the blocks of one code region, cut from its instruction stream
//! and tied together by predecessor edges.

use vstd::prelude::*;
use vstd::slice::slice_subrange;
use crate::block::{
    actions,
    block_end,
    body_start,
    emission_plan,
    falls_through,
    jump_tags,
    jumps_of,
    lemma_jump_tags_replayed,
    opening_tag,
    replayed,
    run_end,
    underflows_at,
    Block,
    Emission,
    Jump,
};
use crate::error::{Error, Failure};
use crate::instruction::{Instruction, InstructionName, InstructionView};
use crate::key::{CodeType, Tag};
use crate::predecessors::Edge;
use crate::stack::{ElementStack, SlotView};

verus! {

/// A run of elements ends within the stream, and behind its first
/// instruction unless that is a tag marker.
pub proof fn lemma_run_end_bounds(stream: Seq<InstructionView>, from: int)
    requires
        0 <= from <= stream.len(),
    ensures
        from <= run_end(stream, from) <= stream.len(),
        from < stream.len() && stream[from].name != InstructionName::Tag ==> from < run_end(
            stream,
            from,
        ),
    decreases stream.len() - from,
{
    if from < stream.len() && stream[from].name != InstructionName::Tag
        && !stream[from].name.is_terminator() {
        lemma_run_end_bounds(stream, from + 1);
    }
}

/// A block takes at least one instruction of a stream that has any, and no
/// more than there are.
pub proof fn lemma_block_end_bounds(stream: Seq<InstructionView>)
    requires
        stream.len() > 0,
    ensures
        1 <= block_end(stream) <= stream.len(),
{
    lemma_run_end_bounds(stream, body_start(stream));
}

/// The stream cut into the runs that one block after another takes of it.
pub open spec fn partition(stream: Seq<InstructionView>) -> Seq<Seq<InstructionView>>
    decreases stream.len(),
{
    if stream.len() == 0 {
        Seq::empty()
    } else {
        proof {
            lemma_block_end_bounds(stream);
        }
        seq![stream.take(block_end(stream))] + partition(stream.skip(block_end(stream)))
    }
}

/// The elements of the block that takes `part`: all of it but the tag marker
/// at its start.
pub open spec fn body(part: Seq<InstructionView>) -> Seq<InstructionView> {
    part.skip(body_start(part))
}

/// The tag of the block at `index`, or why it has none. Only the first block
/// of a region may begin with no tag marker.
pub open spec fn part_tag(parts: Seq<Seq<InstructionView>>, index: int) -> Result<nat, Error> {
    if index > 0 && body_start(parts[index]) == 0 {
        Err(Error::UntaggedBlock)
    } else {
        opening_tag(parts[index])
    }
}

/// Cutting a stream into blocks loses nothing and takes nothing twice: the
/// runs, put end to end, are the stream.
pub proof fn lemma_partition_complete(stream: Seq<InstructionView>)
    ensures
        partition(stream).flatten() == stream,
    decreases stream.len(),
{
    if stream.len() == 0 {
        assert(partition(stream).flatten() =~= stream);
    } else {
        lemma_block_end_bounds(stream);
        let head = stream.take(block_end(stream));
        let rest = stream.skip(block_end(stream));
        lemma_partition_complete(rest);
        assert(partition(stream).first() == head);
        assert(partition(stream).drop_first() =~= partition(rest));
        assert(head + rest =~= stream);
    }
}

/// Every run that the cutting yields holds an instruction.
pub proof fn lemma_partition_nonempty(stream: Seq<InstructionView>, index: int)
    requires
        0 <= index < partition(stream).len(),
    ensures
        partition(stream)[index].len() >= 1,
    decreases stream.len(),
{
    lemma_block_end_bounds(stream);
    if index > 0 {
        let rest = stream.skip(block_end(stream));
        assert(partition(stream)[index] == partition(rest)[index - 1]);
        lemma_partition_nonempty(rest, index - 1);
    }
}

/// What lies between the start of a run of elements and its end: no tag
/// marker, and no instruction that leaves for good but the last. What ends
/// the run: the end of the stream, a tag marker, or such an instruction.
proof fn lemma_run_shape(stream: Seq<InstructionView>, from: int)
    requires
        0 <= from <= stream.len(),
    ensures
        forall|i: int|
            from <= i < run_end(stream, from) ==> (#[trigger] stream[i]).name
                != InstructionName::Tag,
        forall|i: int|
            from <= i < run_end(stream, from) - 1 ==> !(#[trigger] stream[i]).name.is_terminator(),
        run_end(stream, from) == stream.len() || stream[run_end(stream, from)].name
            == InstructionName::Tag || (run_end(stream, from) > from && stream[run_end(stream, from)
            - 1].name.is_terminator()),
    decreases stream.len() - from,
{
    lemma_run_end_bounds(stream, from);
    if from < stream.len() && stream[from].name != InstructionName::Tag
        && !stream[from].name.is_terminator() {
        lemma_run_shape(stream, from + 1);
        lemma_run_end_bounds(stream, from + 1);
    }
}

/// The shape of every block that the cutting yields: none of its elements is
/// a tag marker; none but the last leaves for good; and the block ends with
/// an element that leaves for good, or the next block begins with a tag
/// marker, or the block is the last of the stream.
pub proof fn lemma_block_shape(stream: Seq<InstructionView>, index: int)
    requires
        0 <= index < partition(stream).len(),
    ensures
        forall|i: int|
            0 <= i < body(partition(stream)[index]).len() ==> (#[trigger] body(
                partition(stream)[index],
            )[i]).name != InstructionName::Tag,
        forall|i: int|
            0 <= i < body(partition(stream)[index]).len() - 1 ==> !(#[trigger] body(
                partition(stream)[index],
            )[i]).name.is_terminator(),
        ({
            let elements = body(partition(stream)[index]);
            ||| elements.len() > 0 && elements.last().name.is_terminator()
            ||| index + 1 < partition(stream).len() && body_start(partition(stream)[index + 1]) == 1
            ||| index + 1 == partition(stream).len()
        }),
    decreases stream.len(),
{
    lemma_block_end_bounds(stream);
    let end = block_end(stream);
    let rest = stream.skip(end);
    assert(partition(stream) =~= seq![stream.take(end)] + partition(rest));
    if index == 0 {
        let start = body_start(stream);
        let part = stream.take(end);
        lemma_run_shape(stream, start);
        assert(part[0] == stream[0]);
        assert(body_start(part) == start);
        assert forall|i: int| 0 <= i < body(part).len() implies (#[trigger] body(part)[i]).name
            != InstructionName::Tag by {
            assert(body(part)[i] == stream[start + i]);
        }
        assert forall|i: int| 0 <= i < body(part).len() - 1 implies !(#[trigger] body(
            part,
        )[i]).name.is_terminator() by {
            assert(body(part)[i] == stream[start + i]);
        }
        if end == stream.len() {
            assert(partition(rest).len() == 0);
        } else if stream[end].name == InstructionName::Tag {
            lemma_block_end_bounds(rest);
            assert(partition(rest)[0] == rest.take(block_end(rest)));
            assert(partition(stream)[1] == partition(rest)[0]);
            assert(rest.take(block_end(rest))[0] == stream[end]);
        } else {
            assert(body(part).last() == stream[end - 1]);
        }
    } else {
        assert(partition(stream)[index] == partition(rest)[index - 1]);
        lemma_block_shape(rest, index - 1);
        if index + 1 < partition(stream).len() {
            assert(partition(stream)[index + 1] == partition(rest)[index]);
        }
    }
}

/// A block has no element only where it is a tag marker and nothing else.
pub proof fn lemma_empty_block(stream: Seq<InstructionView>, index: int)
    requires
        0 <= index < partition(stream).len(),
        body(partition(stream)[index]).len() == 0,
    ensures
        partition(stream)[index].len() == 1,
        partition(stream)[index][0].name == InstructionName::Tag,
{
    lemma_partition_nonempty(stream, index);
}

/// Where a block ends: unless a tag marker cuts it short, its last element
/// leaves for good, or it is the last block of the stream.
pub proof fn lemma_terminator_placement(stream: Seq<InstructionView>, index: int)
    requires
        0 <= index < partition(stream).len(),
        index + 1 < partition(stream).len() ==> body_start(partition(stream)[index + 1]) == 0,
    ensures
        ({
            let elements = body(partition(stream)[index]);
            ||| elements.len() > 0 && elements.last().name.is_terminator()
            ||| index + 1 == partition(stream).len()
        }),
{
    lemma_block_shape(stream, index);
}

/// Whether one of the blocks carries `tag`.
pub open spec fn has_tag(blocks: Seq<Block>, tag: nat) -> bool {
    exists|t: int| 0 <= t < blocks.len() && (#[trigger] blocks[t]).key.tag@ == tag
}

/// The element of the first of the jumps that names a tag which none of the
/// blocks carries, if there is such a jump.
pub open spec fn first_dangling(blocks: Seq<Block>, jumps: Seq<Jump>) -> Option<nat>
    decreases jumps.len(),
{
    if jumps.len() == 0 {
        None
    } else {
        match first_dangling(blocks, jumps.drop_last()) {
            Some(element) => Some(element),
            None => if has_tag(blocks, jumps.last().1) {
                None
            } else {
                Some(jumps.last().0)
            },
        }
    }
}

/// Why the block at `index` cannot be tied in, if it cannot, and at which
/// of its elements: its replay fails, one of its jumps takes a constant
/// that is no number, or one of its jumps names a tag that no block carries.
pub open spec fn block_failure(blocks: Seq<Block>, index: int) -> Option<(Error, nat)> {
    match jump_tags(blocks[index].instructions(), blocks[index].initial_stack@) {
        Err(failure) => Some(failure),
        Ok(jumps) => match first_dangling(blocks, jumps) {
            Some(element) => Some((Error::DanglingPredecessor, element)),
            None => None,
        },
    }
}

/// Whether one of the jumps names `tag`.
pub open spec fn names_tag(jumps: Seq<Jump>, tag: nat) -> bool {
    exists|i: int| 0 <= i < jumps.len() && (#[trigger] jumps[i]).1 == tag
}

/// Whether control can pass from the block at `from` to the block at `to`:
/// because `to` comes next and `from` does not end with an instruction that
/// leaves for good, or because a jump of `from` names the tag of `to`.
pub open spec fn linked(blocks: Seq<Block>, from: int, to: int) -> bool {
    ||| to == from + 1 && falls_through(blocks[from].instructions())
    ||| match jump_tags(blocks[from].instructions(), blocks[from].initial_stack@) {
        Ok(jumps) => names_tag(jumps, blocks[to].key.tag@),
        Err(_) => false,
    }
}

/// A jump that names an absent tag among the first `count` jumps is the
/// first such jump among all of them.
proof fn lemma_first_dangling_prefix(blocks: Seq<Block>, jumps: Seq<Jump>, count: int)
    requires
        0 <= count <= jumps.len(),
        first_dangling(blocks, jumps.take(count)) is Some,
    ensures
        first_dangling(blocks, jumps) == first_dangling(blocks, jumps.take(count)),
    decreases jumps.len(),
{
    if count == jumps.len() {
        assert(jumps.take(count) =~= jumps);
    } else {
        assert(jumps.drop_last().take(count) =~= jumps.take(count));
        lemma_first_dangling_prefix(blocks, jumps.drop_last(), count);
    }
}

/// The predecessors that the blocks give to the block at `to`.
pub open spec fn incoming(blocks: Seq<Block>, to: int) -> Set<Edge> {
    Set::new(
        |edge: Edge|
            exists|from: int|
                0 <= from < blocks.len() && linked(blocks, from, to) && edge == (
                #[trigger] blocks[from]).edge(),
    )
}

/// Whether one of the blocks goes by `edge` among the predecessors of
/// another.
pub open spec fn has_edge(blocks: Seq<Block>, edge: Edge) -> bool {
    exists|b: int| 0 <= b < blocks.len() && (#[trigger] blocks[b]).edge() == edge
}

/// Whether every predecessor of every block is one of the blocks.
pub open spec fn predecessors_exist(blocks: Seq<Block>) -> bool {
    forall|k: int, edge: Edge|
        0 <= k < blocks.len() && #[trigger] blocks[k].predecessors@.contains(edge) ==> has_edge(
            blocks,
            edge,
        )
}

/// Blocks that keep their keys and instances keep the names they go by.
proof fn lemma_edges_kept(before: Seq<Block>, after: Seq<Block>)
    requires
        before.len() == after.len(),
        forall|k: int|
            0 <= k < before.len() ==> (#[trigger] after[k]).key == before[k].key && after[k].instance
                == before[k].instance,
    ensures
        forall|edge: Edge| has_edge(before, edge) ==> has_edge(after, edge),
{
    assert forall|edge: Edge| has_edge(before, edge) implies has_edge(after, edge) by {
        let b = choose|b: int| 0 <= b < before.len() && (#[trigger] before[b]).edge() == edge;
        assert(after[b].edge() == edge);
    }
}

/// What the code generator is handed for the block at `index`: each step
/// of the block, with the index of the block.
pub open spec fn block_plan(blocks: Seq<Block>, index: int) -> Seq<(usize, Emission)> {
    let steps = emission_plan(
        blocks[index].key.code_type,
        actions(blocks[index].instructions(), blocks[index].initial_stack@),
    );
    Seq::new(steps.len(), |k: int| (index as usize, steps[k]))
}

/// What the code generator is handed for the blocks that `order` lists, in
/// that order.
pub open spec fn region_plan(blocks: Seq<Block>, order: Seq<usize>) -> Seq<(usize, Emission)>
    decreases order.len(),
{
    if order.len() == 0 {
        Seq::empty()
    } else {
        region_plan(blocks, order.drop_last()) + block_plan(blocks, order.last() as int)
    }
}

/// Whether the list holds the edge from `from` to `to`.
spec fn listed(list: Seq<(usize, usize)>, from: int, to: int) -> bool {
    exists|i: int| 0 <= i < list.len() && (#[trigger] list[i]).0 == from && list[i].1 == to
}

/// The predecessors that the edges of the list give to the block at `to`.
spec fn applied(blocks: Seq<Block>, list: Seq<(usize, usize)>, to: int) -> Set<Edge> {
    Set::new(
        |edge: Edge|
            exists|i: int|
                0 <= i < list.len() && (#[trigger] list[i]).1 == to && edge == blocks[list[i].0 as int].edge(),
    )
}

proof fn lemma_applied_push(blocks: Seq<Block>, list: Seq<(usize, usize)>, next: (usize, usize), to: int)
    ensures
        applied(blocks, list.push(next), to) == if next.1 == to {
            applied(blocks, list, to).insert(blocks[next.0 as int].edge())
        } else {
            applied(blocks, list, to)
        },
{
    let longer = list.push(next);
    let expected = if next.1 == to {
        applied(blocks, list, to).insert(blocks[next.0 as int].edge())
    } else {
        applied(blocks, list, to)
    };
    assert forall|edge: Edge| applied(blocks, longer, to).contains(edge) implies expected.contains(
        edge,
    ) by {
        let i = choose|i: int|
            0 <= i < longer.len() && (#[trigger] longer[i]).1 == to && edge == blocks[longer[i].0 as int].edge();
        if i < list.len() {
            assert(list[i] == longer[i]);
        }
    }
    assert forall|edge: Edge| expected.contains(edge) implies applied(blocks, longer, to).contains(
        edge,
    ) by {
        if applied(blocks, list, to).contains(edge) {
            let i = choose|i: int|
                0 <= i < list.len() && (#[trigger] list[i]).1 == to && edge == blocks[list[i].0 as int].edge();
            assert(longer[i] == list[i]);
        } else {
            assert(longer[list.len() as int] == next);
        }
    }
    assert(applied(blocks, longer, to) =~= expected);
}

/// The blocks of one code region, in the order of the stream.
#[derive(Debug)]
pub struct Region {
    code_type: CodeType,
    blocks: Vec<Block>,
}

impl Region {
    /// The code region.
    pub closed spec fn region(&self) -> CodeType {
        self.code_type
    }

    /// The blocks, in the order of the stream.
    pub closed spec fn block_list(&self) -> Seq<Block> {
        self.blocks@
    }

    /// Whether the region is well formed: its blocks are, they belong to its
    /// code region, no two of them carry the same tag, and every predecessor
    /// of a block is a block of the region. Every region that this module
    /// hands out is.
    pub open spec fn wf(&self) -> bool {
        &&& predecessors_exist(self.block_list())
        &&& forall|k: int|
            0 <= k < self.block_list().len() ==> (#[trigger] self.block_list()[k]).wf()
        &&& forall|k: int|
            0 <= k < self.block_list().len() ==> (#[trigger] self.block_list()[k]).key.code_type
                == self.region()
        &&& forall|i: int, j: int|
            0 <= i < j < self.block_list().len() ==> (#[trigger] self.block_list()[i]).key.tag@ != (
            #[trigger] self.block_list()[j]).key.tag@
    }

    /// The code region.
    pub fn code_type(&self) -> (code_type: CodeType)
        ensures
            code_type == self.region(),
    {
        self.code_type
    }

    /// The blocks, in the order of the stream.
    pub fn blocks(&self) -> (blocks: &Vec<Block>)
        ensures
            blocks@ == self.block_list(),
    {
        &self.blocks
    }

    /// Hands the blocks out, in the order of the stream.
    pub fn into_blocks(self) -> (blocks: Vec<Block>)
        ensures
            blocks@ == self.block_list(),
    {
        self.blocks
    }

    /// Cuts the stream of one code region into its blocks.
    ///
    /// Block after block is assembled from what the block before it left of
    /// the stream, until nothing is left. Fails on the first block that has
    /// no tag: because its tag marker has no operand or one that is no
    /// number, or because it is not the first block and begins with no tag
    /// marker. Fails where two blocks carry the same tag, on the first block
    /// whose tag a block before it carries.
    pub fn try_from_instructions(
        solc_version: semver::Version,
        code_type: CodeType,
        instructions: &[Instruction],
    ) -> (built: Result<Region, Failure>)
        ensures
            match built {
                Ok(region) => {
                    let parts = partition(Instruction::views(instructions@));
                    let blocks = region.block_list();
                    &&& region.wf()
                    &&& region.region() == code_type
                    &&& blocks.len() == parts.len()
                    &&& forall|k: int|
                        0 <= k < blocks.len() ==> {
                            let block = #[trigger] blocks[k];
                            &&& part_tag(parts, k) == Ok::<nat, Error>(block.key.tag@)
                            &&& block.instructions() == body(parts[k])
                            &&& block.solc_version == solc_version
                            &&& forall|i: int|
                                0 <= i < block.elements@.len() ==> (
                                #[trigger] block.elements@[i]).solc_version == solc_version
                            &&& block.instance is None
                            &&& block.predecessors@ == Set::<Edge>::empty()
                            &&& block.initial_stack@ == Seq::<SlotView>::empty()
                            &&& block.stack@ == Seq::<SlotView>::empty()
                            &&& block.extra_hashes@ == Seq::<md5::Digest>::empty()
                        }
                },
                Err(failure) => {
                    let parts = partition(Instruction::views(instructions@));
                    &&& failure.element is None
                    &&& failure.block is Some
                    &&& failure.block.unwrap() < parts.len()
                    &&& if failure.error == Error::DuplicateKey {
                        &&& forall|k: int| 0 <= k < parts.len() ==> part_tag(parts, k) is Ok
                        &&& exists|i: int|
                            0 <= i < failure.block.unwrap() && #[trigger] part_tag(parts, i)
                                == part_tag(parts, failure.block.unwrap() as int)
                        &&& forall|i: int, j: int|
                            0 <= i < j < failure.block.unwrap() ==> #[trigger] part_tag(parts, i)
                                != #[trigger] part_tag(parts, j)
                    } else {
                        &&& part_tag(parts, failure.block.unwrap() as int) == Err::<nat, Error>(
                            failure.error,
                        )
                        &&& forall|j: int|
                            0 <= j < failure.block.unwrap() ==> part_tag(parts, j) is Ok
                    }
                },
            },
    {
        let ghost stream = Instruction::views(instructions@);
        let ghost parts = partition(stream);
        let length: usize = instructions.len();
        let mut blocks: Vec<Block> = Vec::new();
        let mut offset: usize = 0;
        assert(stream.skip(0) =~= stream);
        while offset < length
            invariant
                length == instructions@.len(),
                stream == Instruction::views(instructions@),
                parts == partition(stream),
                offset <= length,
                blocks@.len() <= parts.len(),
                parts.skip(blocks@.len() as int) == partition(stream.skip(offset as int)),
                (offset == 0) == (blocks@.len() == 0),
                forall|k: int|
                    0 <= k < blocks@.len() ==> {
                        let block = #[trigger] blocks@[k];
                        &&& part_tag(parts, k) == Ok::<nat, Error>(block.key.tag@)
                        &&& block.instructions() == body(parts[k])
                        &&& block.solc_version == solc_version
                        &&& forall|i: int|
                            0 <= i < block.elements@.len() ==> (
                            #[trigger] block.elements@[i]).solc_version == solc_version
                        &&& block.extra_hashes@ == Seq::<md5::Digest>::empty()
                        &&& block.key.code_type == code_type
                        &&& block.instance is None
                        &&& block.wf()
                        &&& block.predecessors@ == Set::<Edge>::empty()
                        &&& block.initial_stack@ == Seq::<SlotView>::empty()
                        &&& block.stack@ == Seq::<SlotView>::empty()
                    },
            decreases length - offset,
        {
            let rest = slice_subrange(instructions, offset, length);
            let ghost tail = stream.skip(offset as int);
            proof {
                assert(Instruction::views(rest@) =~= tail);
                lemma_block_end_bounds(tail);
                assert(partition(tail) =~= seq![tail.take(block_end(tail))] + partition(
                    tail.skip(block_end(tail)),
                ));
                assert(parts.skip(blocks@.len() as int).len() >= 1);
                assert(blocks@.len() < parts.len());
                assert(parts.skip(blocks@.len() as int)[0] == tail.take(block_end(tail)));
                assert(parts[blocks@.len() as int] == tail.take(block_end(tail)));
                assert(tail.take(block_end(tail))[0] == tail[0]);
                assert(body_start(tail.take(block_end(tail))) == body_start(tail));
                assert(opening_tag(tail.take(block_end(tail))) == opening_tag(tail));
                assert(tail.skip(block_end(tail)) =~= stream.skip(offset + block_end(tail)));
                assert(parts.skip(blocks@.len() as int + 1) =~= parts.skip(blocks@.len() as int).skip(1));
                assert(partition(tail).skip(1) =~= partition(tail.skip(block_end(tail))));
            }
            if offset > 0 {
                if rest[0].name != InstructionName::Tag {
                    assert(part_tag(parts, blocks@.len() as int) == Err::<nat, Error>(
                        Error::UntaggedBlock,
                    ));
                    assert forall|j: int| 0 <= j < blocks@.len() implies part_tag(parts, j) is Ok by {
                        let earlier = blocks@[j];
                    }
                    return Err(
                        Failure {
                            error: Error::UntaggedBlock,
                            block: Some(blocks.len()),
                            element: None,
                        },
                    );
                }
            }
            match Block::try_from_instructions(solc_version.clone(), code_type, rest) {
                Ok((block, consumed)) => {
                    proof {
                        assert(body(tail.take(block_end(tail))) =~= tail.subrange(
                            body_start(tail),
                            block_end(tail),
                        ));
                    }
                    blocks.push(block);
                    offset += consumed;
                },
                Err(error) => {
                    assert(part_tag(parts, blocks@.len() as int) == Err::<nat, Error>(error));
                    assert forall|j: int| 0 <= j < blocks@.len() implies part_tag(parts, j) is Ok by {
                        let earlier = blocks@[j];
                    }
                    return Err(Failure { error, block: Some(blocks.len()), element: None });
                },
            }
        }
        proof {
            assert(stream.skip(offset as int).len() == 0);
            assert(parts.skip(blocks@.len() as int).len() == 0);
            assert(blocks@.len() == parts.len());
        }
        if let Some(later) = first_duplicate_tag(&blocks) {
            proof {
                let i = choose|i: int|
                    0 <= i < later && blocks@[i].key.tag@ == blocks@[later as int].key.tag@;
                assert(part_tag(parts, i) == part_tag(parts, later as int));
                assert forall|k: int| 0 <= k < parts.len() implies part_tag(parts, k) is Ok by {
                    let block = blocks@[k];
                }
                assert forall|i: int, j: int| 0 <= i < j < later implies #[trigger] part_tag(
                    parts,
                    i,
                ) != #[trigger] part_tag(parts, j) by {
                    let one = blocks@[i];
                    let other = blocks@[j];
                }
            }
            return Err(Failure { error: Error::DuplicateKey, block: Some(later), element: None });
        }
        proof {
            assert forall|k: int, edge: Edge|
                0 <= k < blocks@.len() && #[trigger] blocks@[k].predecessors@.contains(
                    edge,
                ) implies has_edge(blocks@, edge) by {
                let block = blocks@[k];
            }
        }
        Ok(Region { code_type, blocks })
    }

    /// No two blocks of a well-formed region are told apart by nothing: they
    /// differ in their keys, and so in the pair of key and instance.
    pub proof fn lemma_blocks_distinct(&self, first: int, second: int)
        requires
            self.wf(),
            0 <= first < self.block_list().len(),
            0 <= second < self.block_list().len(),
            first != second,
        ensures
            self.block_list()[first].key@ != self.block_list()[second].key@,
            (self.block_list()[first].key@, self.block_list()[first].instance) != (
                self.block_list()[second].key@,
                self.block_list()[second].instance,
            ),
    {
        let one = self.block_list()[first];
        let other = self.block_list()[second];
        if first < second {
            assert(one.key.tag@ != other.key.tag@);
        } else {
            assert(other.key.tag@ != one.key.tag@);
        }
    }

    /// The number of blocks.
    pub fn len(&self) -> (count: usize)
        ensures
            count == self.block_list().len(),
    {
        self.blocks.len()
    }

    /// Where the block with `tag` stands among the blocks, if there is one.
    pub fn find(&self, tag: &Tag) -> (found: Option<usize>)
        ensures
            match found {
                Some(index) => index < self.block_list().len() && self.block_list()[index as int].key.tag@
                    == tag@,
                None => !has_tag(self.block_list(), tag@),
            },
    {
        let count: usize = self.blocks.len();
        let mut index: usize = 0;
        while index < count
            invariant
                count == self.blocks@.len(),
                index <= count,
                forall|t: int| 0 <= t < index ==> (#[trigger] self.blocks@[t]).key.tag@ != tag@,
            decreases count - index,
        {
            if self.blocks[index].key.tag == *tag {
                return Some(index);
            }
            index += 1;
        }
        None
    }

    /// Sets the stack that the block at `index` is entered with.
    pub fn seed(&mut self, index: usize, stack: ElementStack)
        requires
            old(self).wf(),
            index < old(self).block_list().len(),
        ensures
            final(self).wf(),
            final(self).region() == old(self).region(),
            final(self).block_list().len() == old(self).block_list().len(),
            final(self).block_list()[index as int].initial_stack == stack,
            forall|k: int|
                0 <= k < old(self).block_list().len() ==> {
                    let before = #[trigger] old(self).block_list()[k];
                    let after = final(self).block_list()[k];
                    &&& k != index ==> after == before
                    &&& after.solc_version == before.solc_version
                    &&& after.key == before.key
                    &&& after.instance == before.instance
                    &&& after.elements == before.elements
                    &&& after.predecessors == before.predecessors
                    &&& after.stack == before.stack
                    &&& after.extra_hashes == before.extra_hashes
                },
    {
        self.blocks[index].initial_stack = stack;
        proof {
            assert forall|k: int| 0 <= k < self.blocks@.len() implies (#[trigger] self.blocks@[k]).wf()
                && self.blocks@[k].key == old(self).blocks@[k].key && self.blocks@[k].instance
                == old(self).blocks@[k].instance && self.blocks@[k].predecessors
                == old(self).blocks@[k].predecessors by {
                let before = old(self).blocks@[k];
            }
            lemma_edges_kept(old(self).blocks@, self.blocks@);
            assert forall|k: int, edge: Edge|
                0 <= k < self.blocks@.len() && #[trigger] self.blocks@[k].predecessors@.contains(
                    edge,
                ) implies has_edge(self.blocks@, edge) by {
                let before = old(self).blocks@[k];
                assert(old(self).blocks@[k].predecessors@.contains(edge));
            }
        }
    }

    /// Ties the blocks together.
    ///
    /// Block after block, in the order of the stream, the elements are
    /// replayed on the stack that the block is entered with, and the jumps
    /// are followed: a jump that finds a constant on top of the stack names
    /// the block whose tag the constant denotes. That block, and the next
    /// block where a block does not end with an instruction that leaves for
    /// good, get the block as a predecessor. Each block records the stack
    /// that its elements leave.
    ///
    /// Fails on the first block that cannot be tied in, at the first of its
    /// elements that stands in the way, and then leaves the region as it is.
    pub fn link(&mut self) -> (done: Result<(), Failure>)
        requires
            old(self).wf(),
        ensures
            final(self).region() == old(self).region(),
            final(self).block_list().len() == old(self).block_list().len(),
            match done {
                Ok(()) => {
                    let given = old(self).block_list();
                    &&& final(self).wf()
                    &&& forall|k: int| 0 <= k < given.len() ==> block_failure(given, k) is None
                    &&& forall|k: int|
                        0 <= k < given.len() ==> {
                            let before = #[trigger] given[k];
                            let after = final(self).block_list()[k];
                            &&& after.predecessors@ == before.predecessors@.union(incoming(given, k))
                            &&& replayed(before.instructions(), before.initial_stack@) == Some(
                                after.stack@,
                            )
                            &&& after.solc_version == before.solc_version
                            &&& after.key == before.key
                            &&& after.instance == before.instance
                            &&& after.elements == before.elements
                            &&& after.initial_stack == before.initial_stack
                            &&& after.extra_hashes == before.extra_hashes
                        }
                },
                Err(failure) => {
                    let given = old(self).block_list();
                    &&& final(self).block_list() == given
                    &&& failure.block is Some
                    &&& failure.element is Some
                    &&& failure.block.unwrap() < given.len()
                    &&& block_failure(given, failure.block.unwrap() as int) == Some(
                        (failure.error, failure.element.unwrap() as nat),
                    )
                    &&& forall|j: int|
                        0 <= j < failure.block.unwrap() ==> block_failure(given, j) is None
                },
            },
    {
        let ghost given = self.blocks@;
        let count: usize = self.blocks.len();
        let mut list: Vec<(usize, usize)> = Vec::new();
        let mut from: usize = 0;
        while from < count
            invariant
                self.wf(),
                self.blocks@ == given,
                count == given.len(),
                from <= count,
                forall|j: int| 0 <= j < from ==> block_failure(given, j) is None,
                forall|i: int|
                    0 <= i < list@.len() ==> (#[trigger] list@[i]).0 < from && list@[i].1 < count
                        && linked(given, list@[i].0 as int, list@[i].1 as int),
                forall|f: int, t: int|
                    0 <= f < from && 0 <= t < count && linked(given, f, t) ==> listed(list@, f, t),
            decreases count - from,
        {
            let jumps = match self.blocks[from].jump_targets() {
                Ok(jumps) => jumps,
                Err(failure) => {
                    assert(block_failure(given, from as int) == Some(
                        (failure.error, failure.element.unwrap() as nat),
                    ));
                    return Err(
                        Failure { error: failure.error, block: Some(from), element: failure.element },
                    );
                },
            };
            let ghost numbers = jumps_of(jumps@);
            let wanted: usize = jumps.len();
            let mut index: usize = 0;
            assert(numbers.take(0) =~= Seq::<Jump>::empty());
            while index < wanted
                invariant
                    self.wf(),
                    self.blocks@ == given,
                    count == given.len(),
                    from < count,
                    wanted == jumps@.len(),
                    index <= wanted,
                    forall|j: int| 0 <= j < from ==> block_failure(given, j) is None,
                    numbers == jumps_of(jumps@),
                    jump_tags(given[from as int].instructions(), given[from as int].initial_stack@)
                        == Ok::<Seq<Jump>, (Error, nat)>(numbers),
                    first_dangling(given, numbers.take(index as int)) is None,
                    forall|i: int|
                        0 <= i < list@.len() ==> (#[trigger] list@[i]).0 <= from && list@[i].1
                            < count && linked(given, list@[i].0 as int, list@[i].1 as int),
                    forall|f: int, t: int|
                        0 <= f < from && 0 <= t < count && linked(given, f, t) ==> listed(
                            list@,
                            f,
                            t,
                        ),
                    forall|i: int, t: int|
                        #![trigger numbers[i], given[t]]
                        0 <= i < index && 0 <= t < count && given[t].key.tag@ == numbers[i].1
                            ==> listed(list@, from as int, t),
                decreases wanted - index,
            {
                let ghost earlier = list@;
                proof {
                    assert(numbers.take(index + 1).drop_last() =~= numbers.take(index as int));
                    assert(numbers.take(index + 1).last() == numbers[index as int]);
                    assert(numbers[index as int] == (
                        jumps@[index as int].0 as nat,
                        jumps@[index as int].1@,
                    ));
                }
                match self.find(&jumps[index].1) {
                    Some(to) => {
                        proof {
                            assert(names_tag(numbers, given[to as int].key.tag@));
                            assert(has_tag(given, numbers[index as int].1));
                        }
                        list.push((from, to));
                        proof {
                            assert(list@[earlier.len() as int] == (from, to));
                            assert forall|f: int, t: int| listed(earlier, f, t) implies listed(
                                list@,
                                f,
                                t,
                            ) by {
                                let i = choose|i: int|
                                    0 <= i < earlier.len() && (#[trigger] earlier[i]).0 == f
                                        && earlier[i].1 == t;
                                assert(list@[i] == earlier[i]);
                            }
                            assert forall|i: int, t: int|
                                #![trigger numbers[i], given[t]]
                                0 <= i < index + 1 && 0 <= t < count && given[t].key.tag@
                                    == numbers[i].1 implies listed(list@, from as int, t) by {
                                if i == index {
                                    assert(given[t].key.tag@ == given[to as int].key.tag@);
                                    assert(t == to);
                                    assert(listed(list@, from as int, t));
                                } else {
                                    assert(listed(earlier, from as int, t));
                                }
                            }
                        }
                    },
                    None => {
                        proof {
                            assert(!has_tag(given, numbers[index as int].1));
                            assert(first_dangling(given, numbers.take(index + 1)) == Some(
                                numbers[index as int].0,
                            ));
                            lemma_first_dangling_prefix(given, numbers, index + 1);
                            assert(block_failure(given, from as int) == Some(
                                (Error::DanglingPredecessor, jumps@[index as int].0 as nat),
                            ));
                        }
                        return Err(
                            Failure {
                                error: Error::DanglingPredecessor,
                                block: Some(from),
                                element: Some(jumps[index].0),
                            },
                        );
                    },
                }
                index += 1;
            }
            assert(numbers.take(wanted as int) =~= numbers);
            let ghost jumped = list@;
            if self.blocks[from].runs_on() && from + 1 < count {
                list.push((from, from + 1));
                proof {
                    assert(list@[jumped.len() as int] == (from, (from + 1) as usize));
                    assert forall|f: int, t: int| listed(jumped, f, t) implies listed(list@, f, t) by {
                        let i = choose|i: int|
                            0 <= i < jumped.len() && (#[trigger] jumped[i]).0 == f && jumped[i].1
                                == t;
                        assert(list@[i] == jumped[i]);
                    }
                }
            }
            proof {
                assert(block_failure(given, from as int) is None);
                assert forall|f: int, t: int|
                    0 <= f < from + 1 && 0 <= t < count && linked(given, f, t) implies listed(
                    list@,
                    f,
                    t,
                ) by {
                    if f == from {
                        if names_tag(numbers, given[t].key.tag@) {
                            let i = choose|i: int|
                                0 <= i < numbers.len() && (#[trigger] numbers[i]).1
                                    == given[t].key.tag@;
                            assert(listed(jumped, from as int, t));
                        } else {
                            assert(t == from + 1);
                            assert(list@[jumped.len() as int].0 == f);
                        }
                    }
                }
            }
            from += 1;
        }
        self.tie(&list);
        proof {
            assert forall|k: int| 0 <= k < given.len() implies replayed(
                (#[trigger] self.blocks@[k]).instructions(),
                self.blocks@[k].initial_stack@,
            ) is Some by {
                let before = given[k];
                assert(block_failure(given, k) is None);
                lemma_jump_tags_replayed(before.instructions(), before.initial_stack@);
            }
        }
        let ghost tied = self.blocks@;
        self.replay_all();
        proof {
            assert forall|k: int| 0 <= k < given.len() implies (#[trigger] given[k]).key
                == self.blocks@[k].key && self.blocks@[k].predecessors == tied[k].predecessors by {
                let middle = tied[k];
            }
            assert forall|k: int| 0 <= k < given.len() implies applied(given, list@, k) =~= incoming(
                given,
                k,
            ) by {
                assert forall|edge: Edge| applied(given, list@, k).contains(edge) implies incoming(
                    given,
                    k,
                ).contains(edge) by {
                    let i = choose|i: int|
                        0 <= i < list@.len() && (#[trigger] list@[i]).1 == k && edge
                            == given[list@[i].0 as int].edge();
                    let source = given[list@[i].0 as int];
                }
                assert forall|edge: Edge| incoming(given, k).contains(edge) implies applied(
                    given,
                    list@,
                    k,
                ).contains(edge) by {
                    let f = choose|f: int|
                        0 <= f < given.len() && linked(given, f, k) && edge == (
                        #[trigger] given[f]).edge();
                    assert(listed(list@, f, k));
                    let i = choose|i: int|
                        0 <= i < list@.len() && (#[trigger] list@[i]).0 == f && list@[i].1 == k;
                }
            }
        }
        Ok(())
    }

    /// The indices of the blocks in the order of the stream.
    pub fn declaration_order(&self) -> (order: Vec<usize>)
        ensures
            order@.len() == self.block_list().len(),
            forall|i: int| 0 <= i < order@.len() ==> order@[i] == i,
    {
        let count: usize = self.blocks.len();
        let mut order: Vec<usize> = Vec::with_capacity(count);
        let mut index: usize = 0;
        while index < count
            invariant
                count == self.blocks@.len(),
                index <= count,
                order@.len() == index,
                forall|i: int| 0 <= i < index ==> order@[i] == i,
            decreases count - index,
        {
            order.push(index);
            index += 1;
        }
        order
    }

    /// What the code generator is to be handed for the region: the steps of
    /// each block that `order` lists, block after block in that order, each
    /// step with the index of its block. Fails on the first block in the
    /// order with an element that finds fewer slots than it needs.
    pub fn emission(&self, order: &[usize]) -> (plan: Result<Vec<(usize, Emission)>, Failure>)
        requires
            forall|i: int| 0 <= i < order@.len() ==> order@[i] < self.block_list().len(),
        ensures
            match plan {
                Ok(steps) => steps@ == region_plan(self.block_list(), order@),
                Err(failure) => {
                    let blocks = self.block_list();
                    &&& failure.error == Error::StackUnderflow
                    &&& failure.block is Some
                    &&& failure.element is Some
                    &&& exists|place: int|
                        0 <= place < order@.len() && #[trigger] order@[place]
                            == failure.block.unwrap() && underflows_at(
                            blocks[order@[place] as int].instructions(),
                            blocks[order@[place] as int].initial_stack@,
                            failure.element.unwrap() as int,
                        ) && forall|j: int|
                            0 <= j < place ==> replayed(
                                blocks[(#[trigger] order@[j]) as int].instructions(),
                                blocks[order@[j] as int].initial_stack@,
                            ) is Some
                },
            },
    {
        let ghost blocks = self.blocks@;
        let count: usize = order.len();
        let mut steps: Vec<(usize, Emission)> = Vec::new();
        let mut place: usize = 0;
        assert(order@.take(0) =~= Seq::<usize>::empty());
        while place < count
            invariant
                blocks == self.blocks@,
                count == order@.len(),
                place <= count,
                forall|i: int| 0 <= i < order@.len() ==> order@[i] < blocks.len(),
                steps@ == region_plan(blocks, order@.take(place as int)),
                forall|j: int|
                    0 <= j < place ==> replayed(
                        blocks[(#[trigger] order@[j]) as int].instructions(),
                        blocks[order@[j] as int].initial_stack@,
                    ) is Some,
            decreases count - place,
        {
            let index: usize = order[place];
            let block_steps = match self.blocks[index].emission() {
                Ok(block_steps) => block_steps,
                Err(failure) => {
                    assert(order@[place as int] == index);
                    return Err(
                        Failure {
                            error: failure.error,
                            block: Some(index),
                            element: failure.element,
                        },
                    );
                },
            };
            let ghost before = steps@;
            let total: usize = block_steps.len();
            let mut step: usize = 0;
            while step < total
                invariant
                    total == block_steps@.len(),
                    step <= total,
                    steps@.len() == before.len() + step,
                    forall|k: int| 0 <= k < before.len() ==> steps@[k] == before[k],
                    forall|k: int|
                        0 <= k < step ==> steps@[before.len() + k] == (index, block_steps@[k]),
                decreases total - step,
            {
                steps.push((index, block_steps[step]));
                step += 1;
            }
            proof {
                let longer = order@.take(place + 1);
                assert(longer.drop_last() =~= order@.take(place as int));
                assert(longer.last() == index);
                assert(steps@ =~= before + block_plan(blocks, index as int));
            }
            place += 1;
        }
        assert(order@.take(count as int) =~= order@);
        Ok(steps)
    }

    /// Gives each block the predecessors that the edges of the list say.
    fn tie(&mut self, list: &Vec<(usize, usize)>)
        requires
            old(self).wf(),
            forall|i: int|
                0 <= i < list@.len() ==> (#[trigger] list@[i]).0 < old(self).block_list().len()
                    && list@[i].1 < old(self).block_list().len(),
        ensures
            final(self).wf(),
            final(self).region() == old(self).region(),
            final(self).block_list().len() == old(self).block_list().len(),
            forall|k: int|
                0 <= k < old(self).block_list().len() ==> {
                    let before = #[trigger] old(self).block_list()[k];
                    let after = final(self).block_list()[k];
                    &&& after.predecessors@ == before.predecessors@.union(
                        applied(old(self).block_list(), list@, k),
                    )
                    &&& after.solc_version == before.solc_version
                    &&& after.key == before.key
                    &&& after.instance == before.instance
                    &&& after.elements == before.elements
                    &&& after.initial_stack == before.initial_stack
                    &&& after.stack == before.stack
                    &&& after.extra_hashes == before.extra_hashes
                },
    {
        let ghost given = self.blocks@;
        let total: usize = list.len();
        let mut done: usize = 0;
        proof {
            assert forall|k: int| 0 <= k < given.len() implies (#[trigger] given[k]).predecessors@
                =~= given[k].predecessors@.union(applied(given, list@.take(0), k)) by {}
        }
        while done < total
            invariant
                self.wf(),
                self.code_type == old(self).code_type,
                given == old(self).blocks@,
                self.blocks@.len() == given.len(),
                total == list@.len(),
                done <= total,
                forall|i: int|
                    0 <= i < list@.len() ==> (#[trigger] list@[i]).0 < given.len() && list@[i].1
                        < given.len(),
                forall|k: int|
                    0 <= k < given.len() ==> {
                        let before = #[trigger] given[k];
                        let after = self.blocks@[k];
                        &&& after.predecessors@ == before.predecessors@.union(
                            applied(given, list@.take(done as int), k),
                        )
                        &&& after.solc_version == before.solc_version
                        &&& after.key == before.key
                        &&& after.instance == before.instance
                        &&& after.elements == before.elements
                        &&& after.initial_stack == before.initial_stack
                        &&& after.stack == before.stack
                        &&& after.extra_hashes == before.extra_hashes
                    },
            decreases total - done,
        {
            let from: usize = list[done].0;
            let to: usize = list[done].1;
            let ghost current = self.blocks@;
            proof {
                let source = given[from as int];
                let target = given[to as int];
                assert(current[to as int].wf());
            }
            let key = self.blocks[from].key.clone();
            let instance: usize = match self.blocks[from].instance {
                Some(instance) => instance,
                None => 0,
            };
            assert((key@, instance) == given[from as int].edge());
            self.blocks[to].insert_predecessor(key, instance);
            proof {
                assert(list@.take(done + 1) =~= list@.take(done as int).push(list@[done as int]));
                assert forall|k: int| 0 <= k < given.len() implies {
                    let before = #[trigger] given[k];
                    let after = self.blocks@[k];
                    &&& after.wf()
                    &&& after.predecessors@ == before.predecessors@.union(
                        applied(given, list@.take(done + 1), k),
                    )
                    &&& after.solc_version == before.solc_version
                    &&& after.key == before.key
                    &&& after.instance == before.instance
                    &&& after.elements == before.elements
                    &&& after.initial_stack == before.initial_stack
                    &&& after.stack == before.stack
                    &&& after.extra_hashes == before.extra_hashes
                } by {
                    let before = given[k];
                    let middle = current[k];
                    lemma_applied_push(given, list@.take(done as int), list@[done as int], k);
                    if k == to {
                        assert(self.blocks@[k].predecessors@ =~= before.predecessors@.union(
                            applied(given, list@.take(done + 1), k),
                        ));
                    } else {
                        assert(self.blocks@[k] == current[k]);
                    }
                }
                assert forall|k: int|
                    0 <= k < given.len() implies (#[trigger] self.blocks@[k]).key == current[k].key
                    && self.blocks@[k].instance == current[k].instance by {
                    let before = given[k];
                }
                lemma_edges_kept(current, self.blocks@);
                assert forall|k: int, edge: Edge|
                    0 <= k < self.blocks@.len() && #[trigger] self.blocks@[k].predecessors@.contains(
                        edge,
                    ) implies has_edge(self.blocks@, edge) by {
                    let before = given[k];
                    if k == to && edge == given[from as int].edge() {
                        assert(self.blocks@[from as int].edge() == edge);
                    } else {
                        assert(current[k].predecessors@.contains(edge));
                    }
                }
            }
            done += 1;
        }
        assert(list@.take(total as int) =~= list@);
    }

    /// Replays every block and records the stacks.
    fn replay_all(&mut self)
        requires
            old(self).wf(),
            forall|k: int|
                0 <= k < old(self).block_list().len() ==> replayed(
                    (#[trigger] old(self).block_list()[k]).instructions(),
                    old(self).block_list()[k].initial_stack@,
                ) is Some,
        ensures
            final(self).wf(),
            final(self).region() == old(self).region(),
            final(self).block_list().len() == old(self).block_list().len(),
            forall|k: int|
                0 <= k < old(self).block_list().len() ==> {
                    let before = #[trigger] old(self).block_list()[k];
                    let after = final(self).block_list()[k];
                    &&& replayed(before.instructions(), before.initial_stack@) == Some(after.stack@)
                    &&& after.predecessors == before.predecessors
                    &&& after.solc_version == before.solc_version
                    &&& after.key == before.key
                    &&& after.instance == before.instance
                    &&& after.elements == before.elements
                    &&& after.initial_stack == before.initial_stack
                    &&& after.extra_hashes == before.extra_hashes
                },
    {
        let ghost given = self.blocks@;
        let count: usize = self.blocks.len();
        let mut index: usize = 0;
        while index < count
            invariant
                self.wf(),
                self.code_type == old(self).code_type,
                given == old(self).blocks@,
                self.blocks@.len() == given.len(),
                count == given.len(),
                index <= count,
                forall|k: int|
                    0 <= k < given.len() ==> replayed(
                        (#[trigger] given[k]).instructions(),
                        given[k].initial_stack@,
                    ) is Some,
                forall|k: int|
                    0 <= k < given.len() ==> {
                        let before = #[trigger] given[k];
                        let after = self.blocks@[k];
                        &&& k < index ==> replayed(before.instructions(), before.initial_stack@)
                            == Some(after.stack@)
                        &&& k >= index ==> after == before
                        &&& after.predecessors == before.predecessors
                        &&& after.solc_version == before.solc_version
                        &&& after.key == before.key
                        &&& after.instance == before.instance
                        &&& after.elements == before.elements
                        &&& after.initial_stack == before.initial_stack
                        &&& after.extra_hashes == before.extra_hashes
                    },
            decreases count - index,
        {
            let ghost current = self.blocks@;
            proof {
                let before = given[index as int];
            }
            let replay = self.blocks[index].replay();
            proof {
                assert forall|k: int| 0 <= k < given.len() implies {
                    let before = #[trigger] given[k];
                    let after = self.blocks@[k];
                    &&& after.wf()
                    &&& k < index + 1 ==> replayed(before.instructions(), before.initial_stack@)
                        == Some(after.stack@)
                    &&& k >= index + 1 ==> after == before
                    &&& after.predecessors == before.predecessors
                    &&& after.solc_version == before.solc_version
                    &&& after.key == before.key
                    &&& after.instance == before.instance
                    &&& after.elements == before.elements
                    &&& after.initial_stack == before.initial_stack
                    &&& after.extra_hashes == before.extra_hashes
                } by {
                    let before = given[k];
                    let middle = current[k];
                    if k != index {
                        assert(self.blocks@[k] == current[k]);
                    }
                }
                assert forall|k: int|
                    0 <= k < given.len() implies (#[trigger] self.blocks@[k]).key == current[k].key
                    && self.blocks@[k].instance == current[k].instance by {
                    let before = given[k];
                }
                lemma_edges_kept(current, self.blocks@);
                assert forall|k: int, edge: Edge|
                    0 <= k < self.blocks@.len() && #[trigger] self.blocks@[k].predecessors@.contains(
                        edge,
                    ) implies has_edge(self.blocks@, edge) by {
                    let before = given[k];
                    assert(self.blocks@[k].predecessors == current[k].predecessors);
                    assert(current[k].predecessors@.contains(edge));
                }
            }
            index += 1;
        }
    }
}

/// The first block whose tag a block before it carries, if there is one.
fn first_duplicate_tag(blocks: &Vec<Block>) -> (found: Option<usize>)
    ensures
        match found {
            Some(later) => later < blocks@.len() && (exists|i: int|
                0 <= i < later && blocks@[i].key.tag@ == blocks@[later as int].key.tag@)
                && forall|i: int, j: int|
                0 <= i < j < later ==> blocks@[i].key.tag@ != blocks@[j].key.tag@,
            None => forall|i: int, j: int|
                0 <= i < j < blocks@.len() ==> blocks@[i].key.tag@ != blocks@[j].key.tag@,
        },
{
    let count: usize = blocks.len();
    let mut later: usize = 0;
    while later < count
        invariant
            count == blocks@.len(),
            later <= count,
            forall|i: int, j: int|
                0 <= i < j < later ==> blocks@[i].key.tag@ != blocks@[j].key.tag@,
        decreases count - later,
    {
        let mut earlier: usize = 0;
        while earlier < later
            invariant
                count == blocks@.len(),
                earlier <= later < count,
                forall|i: int, j: int|
                    0 <= i < j < later ==> blocks@[i].key.tag@ != blocks@[j].key.tag@,
                forall|i: int| 0 <= i < earlier ==> blocks@[i].key.tag@ != blocks@[later as int].key.tag@,
            decreases later - earlier,
        {
            if blocks[earlier].key.tag == blocks[later].key.tag {
                return Some(later);
            }
            earlier += 1;
        }
        later += 1;
    }
    None
}

} // verus!
