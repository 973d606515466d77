//! Coupling of block and sidecar streams during range sync: blocks and their
//! blob (or data-column) sidecars arrive on separate streams and are paired
//! by slot once both streams terminate.

use vstd::prelude::*;
use crate::types::SignedBlock;

verus! {

/// Maximum number of blob sidecars a block may carry.
pub const MAX_BLOBS_PER_BLOCK: u64 = 6;

/// Number of data columns a block's data is extended into.
pub const NUMBER_OF_COLUMNS: u64 = 128;

/// A blob sidecar: one blob of a block, identified by slot and index.
#[derive(Clone, Copy, Debug, PartialEq, Eq, Structural)]
pub struct BlobSidecar {
    pub slot: u64,
    pub index: u64,
}

/// A data-column sidecar: one column of a block's extended data.
#[derive(Clone, Copy, Debug, PartialEq, Eq, Structural)]
pub struct DataColumnSidecar {
    pub slot: u64,
    pub index: u64,
}

/// Rejections raised while pairing sidecars to blocks.
#[derive(Clone, Copy, Debug, PartialEq, Eq, Structural)]
pub enum CouplingError {
    /// A sidecar's index is beyond the per-block bound.
    InvalidIndex(u64),
    /// Two sidecars of one block share an index.
    RepeatIndex(u64),
    /// Sidecars remained after every block was paired.
    UnpairedSidecars,
}

/// A block ready for processing together with the sidecars paired to it.
#[derive(Debug, PartialEq, Eq)]
pub struct RpcBlock {
    pub block: SignedBlock,
    pub blobs: Option<Vec<BlobSidecar>>,
    pub data_columns: Option<Vec<DataColumnSidecar>>,
}

/// Length of the run of blob sidecars at `slot` at the front of the queue.
pub open spec fn spec_blob_run_len(sidecars: Seq<BlobSidecar>, slot: u64) -> int
    decreases sidecars.len(),
{
    if sidecars.len() == 0 || sidecars.first().slot != slot {
        0int
    } else {
        1 + spec_blob_run_len(sidecars.drop_first(), slot)
    }
}

/// The first index-rule violation in a run of blob sidecars, scanning in
/// order from position `a`: an index at or beyond the bound, or one already
/// used earlier in the run.
pub open spec fn spec_blob_run_verdict_from(run: Seq<BlobSidecar>, a: int) -> Option<CouplingError>
    decreases run.len() - a,
{
    if a < 0 || a >= run.len() {
        None
    } else if run[a].index >= MAX_BLOBS_PER_BLOCK {
        Some(CouplingError::InvalidIndex(run[a].index))
    } else if exists|b: int| 0 <= b < a && run[b].index == run[a].index {
        Some(CouplingError::RepeatIndex(run[a].index))
    } else {
        spec_blob_run_verdict_from(run, a + 1)
    }
}

/// The first sidecar in `run` with index `idx`, if any.
pub open spec fn spec_first_blob_with_index(run: Seq<BlobSidecar>, idx: u64) -> Option<BlobSidecar>
    decreases run.len(),
{
    if run.len() == 0 {
        None
    } else {
        match spec_first_blob_with_index(run.drop_last(), idx) {
            Some(found) => Some(found),
            None => if run.last().index == idx {
                Some(run.last())
            } else {
                None
            },
        }
    }
}

/// A found sidecar carries the index it was searched for.
proof fn lemma_first_blob_index(run: Seq<BlobSidecar>, idx: u64)
    ensures
        spec_first_blob_with_index(run, idx) matches Some(found) ==> found.index == idx,
    decreases run.len(),
{
    if run.len() > 0 {
        lemma_first_blob_index(run.drop_last(), idx);
    }
}

/// The run arranged by ascending index: for each index below `upto`, its
/// sidecar when the run holds one.
pub open spec fn spec_ordered_blob_run(run: Seq<BlobSidecar>, upto: int) -> Seq<BlobSidecar>
    decreases upto,
{
    if upto <= 0 {
        Seq::<BlobSidecar>::empty()
    } else {
        spec_ordered_blob_run(run, upto - 1) + (match spec_first_blob_with_index(
            run,
            (upto - 1) as u64,
        ) {
            Some(found) => seq![found],
            None => Seq::<BlobSidecar>::empty(),
        })
    }
}

/// The pairing of blob sidecars to blocks: each block, in order, consumes the
/// run of sidecars at its slot from the front of the queue. The result holds
/// each block's run ordered by index; the first violation — an out-of-range
/// index, a repeated index, or sidecars left after the last block — fails the
/// whole pairing.
pub open spec fn spec_pair_blobs(blocks: Seq<SignedBlock>, sidecars: Seq<BlobSidecar>) -> Result<
    Seq<Seq<BlobSidecar>>,
    CouplingError,
>
    decreases blocks.len(),
{
    if blocks.len() == 0 {
        if sidecars.len() == 0 {
            Ok(Seq::<Seq<BlobSidecar>>::empty())
        } else {
            Err(CouplingError::UnpairedSidecars)
        }
    } else {
        let k = spec_blob_run_len(sidecars, blocks.first().message.slot);
        let run = sidecars.take(k);
        match spec_blob_run_verdict_from(run, 0) {
            Some(e) => Err(e),
            None => match spec_pair_blobs(blocks.drop_first(), sidecars.skip(k)) {
                Err(e) => Err(e),
                Ok(rest) => Ok(
                    seq![spec_ordered_blob_run(run, MAX_BLOBS_PER_BLOCK as int)] + rest,
                ),
            },
        }
    }
}

/// A prefix of matching slots that ends at a mismatch (or the queue's end)
/// is exactly the run the pairing takes.
proof fn lemma_blob_run_len(sidecars: Seq<BlobSidecar>, slot: u64, k: int)
    requires
        0 <= k <= sidecars.len(),
        forall|t: int| 0 <= t < k ==> (#[trigger] sidecars[t]).slot == slot,
        k == sidecars.len() || sidecars[k].slot != slot,
    ensures
        spec_blob_run_len(sidecars, slot) == k,
    decreases k,
{
    if k == 0 {
    } else {
        assert(sidecars.first().slot == slot);
        lemma_blob_run_len(sidecars.drop_first(), slot, k - 1);
    }
}

/// Blocks and blob sidecars accumulated from one range request, paired once
/// both streams have terminated.
pub struct BlocksAndBlobsRequestInfo {
    /// Blocks received, awaiting their sidecars, in stream order.
    accumulated_blocks: Vec<SignedBlock>,
    /// Sidecars received, awaiting their blocks, in stream order.
    accumulated_sidecars: Vec<BlobSidecar>,
    /// Whether the block stream has terminated.
    is_blocks_stream_terminated: bool,
    /// Whether the sidecar stream has terminated.
    is_sidecars_stream_terminated: bool,
}

impl BlocksAndBlobsRequestInfo {
    /// The accumulated blocks, in stream order.
    pub closed spec fn view_blocks(self) -> Seq<SignedBlock> {
        self.accumulated_blocks@
    }

    /// The accumulated sidecars, in stream order.
    pub closed spec fn view_sidecars(self) -> Seq<BlobSidecar> {
        self.accumulated_sidecars@
    }

    /// Whether the block stream has terminated.
    pub closed spec fn spec_blocks_stream_terminated(self) -> bool {
        self.is_blocks_stream_terminated
    }

    /// Whether the sidecar stream has terminated.
    pub closed spec fn spec_sidecars_stream_terminated(self) -> bool {
        self.is_sidecars_stream_terminated
    }

    /// Whether both streams have terminated.
    pub open spec fn spec_is_finished(self) -> bool {
        self.spec_blocks_stream_terminated() && self.spec_sidecars_stream_terminated()
    }

    /// An empty accumulator with both streams still open.
    pub fn new() -> (r: Self)
        ensures
            r.view_blocks() == Seq::<SignedBlock>::empty(),
            r.view_sidecars() == Seq::<BlobSidecar>::empty(),
            !r.spec_blocks_stream_terminated(),
            !r.spec_sidecars_stream_terminated(),
    {
        BlocksAndBlobsRequestInfo {
            accumulated_blocks: Vec::new(),
            accumulated_sidecars: Vec::new(),
            is_blocks_stream_terminated: false,
            is_sidecars_stream_terminated: false,
        }
    }

    /// Accumulates one block-stream response: a block is appended at the back
    /// (order preserved), the stream's end marks the block stream terminated;
    /// neither touches the sidecar side.
    pub fn add_block_response(&mut self, block_opt: Option<SignedBlock>)
        ensures
            final(self).view_sidecars() == old(self).view_sidecars(),
            final(self).spec_sidecars_stream_terminated() == old(self).spec_sidecars_stream_terminated(),
            match block_opt {
                Some(block) => final(self).view_blocks() == old(self).view_blocks().push(block)
                    && final(self).spec_blocks_stream_terminated() == old(self).spec_blocks_stream_terminated(),
                None => final(self).view_blocks() == old(self).view_blocks() && final(self).spec_blocks_stream_terminated(),
            },
    {
        match block_opt {
            Some(block) => self.accumulated_blocks.push(block),
            None => {
                self.is_blocks_stream_terminated = true;
            },
        }
    }

    /// Accumulates one sidecar-stream response: a sidecar is appended at the
    /// back (order preserved), the stream's end marks the sidecar stream
    /// terminated; neither touches the block side.
    pub fn add_sidecar_response(&mut self, sidecar_opt: Option<BlobSidecar>)
        ensures
            final(self).view_blocks() == old(self).view_blocks(),
            final(self).spec_blocks_stream_terminated() == old(self).spec_blocks_stream_terminated(),
            match sidecar_opt {
                Some(sidecar) => final(self).view_sidecars() == old(self).view_sidecars().push(
                    sidecar,
                ) && final(self).spec_sidecars_stream_terminated() == old(self).spec_sidecars_stream_terminated(),
                None => final(self).view_sidecars() == old(self).view_sidecars() && final(self).spec_sidecars_stream_terminated(),
            },
    {
        match sidecar_opt {
            Some(sidecar) => self.accumulated_sidecars.push(sidecar),
            None => {
                self.is_sidecars_stream_terminated = true;
            },
        }
    }

    /// Whether both streams have terminated and pairing can begin.
    pub fn is_finished(&self) -> (r: bool)
        ensures
            r == self.spec_is_finished(),
    {
        self.is_blocks_stream_terminated && self.is_sidecars_stream_terminated
    }

    /// Pairs the accumulated sidecars to their blocks, exactly as the
    /// pairing spec describes: each block, in order, takes the run of
    /// sidecars at its slot from the front of the queue, ordered by index;
    /// an out-of-range or repeated index fails, as do sidecars left over
    /// after the last block (a sidecar for a skipped slot pairs with
    /// nothing).
    #[verifier::loop_isolation(false)]
    pub fn into_responses(self) -> (r: Result<Vec<RpcBlock>, CouplingError>)
        ensures
            match r {
                Ok(out) => {
                    &&& spec_pair_blobs(self.view_blocks(), self.view_sidecars()) matches Ok(runs)
                    &&& out@.len() == self.view_blocks().len()
                    &&& forall|i: int|
                        0 <= i < out@.len() ==> (#[trigger] out@[i]).block == self.view_blocks()[i]
                            && out@[i].data_columns is None && (out@[i].blobs matches Some(v) && v@
                            == spec_pair_blobs(
                            self.view_blocks(),
                            self.view_sidecars(),
                        ).unwrap()[i])
                },
                Err(e) => spec_pair_blobs(self.view_blocks(), self.view_sidecars()) == Err::<
                    Seq<Seq<BlobSidecar>>,
                    CouplingError,
                >(e),
            },
    {
        let BlocksAndBlobsRequestInfo { accumulated_blocks, accumulated_sidecars, .. } = self;
        let ghost blocks0 = accumulated_blocks@;
        let ghost sidecars0 = accumulated_sidecars@;
        let mut responses: Vec<RpcBlock> = Vec::new();
        let mut blocks = accumulated_blocks;
        let mut sidecars = accumulated_sidecars;
        let ghost mut done_runs: Seq<Seq<BlobSidecar>> = Seq::<Seq<BlobSidecar>>::empty();
        while blocks.len() > 0
            invariant
                responses@.len() + blocks@.len() == blocks0.len(),
                blocks0.skip(responses@.len() as int) =~= blocks@,
                done_runs.len() == responses@.len(),
                spec_pair_blobs(blocks0, sidecars0) == (match spec_pair_blobs(blocks@, sidecars@) {
                    Err(e) => Err::<Seq<Seq<BlobSidecar>>, CouplingError>(e),
                    Ok(rest) => Ok::<Seq<Seq<BlobSidecar>>, CouplingError>(done_runs + rest),
                }),
                forall|i: int|
                    0 <= i < responses@.len() ==> (#[trigger] responses@[i]).block == blocks0[i]
                        && responses@[i].data_columns is None && (responses@[i].blobs matches Some(
                        v,
                    ) && v@ == done_runs[i]),
            decreases blocks@.len(),
        {
            let ghost blocks_pre = blocks@;
            let ghost sidecars_pre = sidecars@;
            let block = blocks.remove(0);
            proof {
                assert(blocks@ =~= blocks_pre.drop_first());
                assert(blocks_pre.first() == blocks_pre[0]);
            }
            let block_slot = block.message.slot;
            // Measure the run of sidecars at this block's slot.
            let mut k: usize = 0;
            while k < sidecars.len() && sidecars[k].slot == block_slot
                invariant
                    k <= sidecars@.len(),
                    sidecars@ == sidecars_pre,
                    forall|t: int| 0 <= t < k ==> (#[trigger] sidecars@[t]).slot == block_slot,
                decreases sidecars@.len() - k,
            {
                k = k + 1;
            }
            proof {
                lemma_blob_run_len(sidecars_pre, block_slot, k as int);
            }
            let tail = sidecars.split_off(k);
            let run = sidecars;
            sidecars = tail;
            proof {
                assert(run@ =~= sidecars_pre.take(k as int));
                assert(sidecars@ =~= sidecars_pre.skip(k as int));
            }
            // Every index must be in range and unique within the run.
            let m = run.len();
            let mut a: usize = 0;
            while a < m
                invariant
                    a <= m,
                    m == run@.len(),
                    spec_blob_run_verdict_from(run@, 0) == spec_blob_run_verdict_from(
                        run@,
                        a as int,
                    ),
                    forall|t: int|
                        0 <= t < a ==> (#[trigger] run@[t]).index < MAX_BLOBS_PER_BLOCK,
                    forall|t1: int, t2: int| 0 <= t1 < t2 < a ==> run@[t1].index != run@[t2].index,
                decreases m - a,
            {
                if run[a].index >= MAX_BLOBS_PER_BLOCK {
                    proof {
                        assert(spec_blob_run_verdict_from(run@, a as int) == Some(
                            CouplingError::InvalidIndex(run@[a as int].index),
                        ));
                        assert(spec_pair_blobs(blocks_pre, sidecars_pre) == Err::<
                            Seq<Seq<BlobSidecar>>,
                            CouplingError,
                        >(CouplingError::InvalidIndex(run@[a as int].index)));
                    }
                    return Err(CouplingError::InvalidIndex(run[a].index));
                }
                let mut b: usize = 0;
                while b < a
                    invariant
                        b <= a < m,
                        m == run@.len(),
                        forall|t: int|
                            0 <= t < b ==> (#[trigger] run@[t]).index != run@[a as int].index,
                    decreases a - b,
                {
                    if run[b].index == run[a].index {
                        proof {
                            assert(0 <= b < a && run@[b as int].index == run@[a as int].index);
                            assert(exists|bb: int|
                                0 <= bb < a && run@[bb].index == run@[a as int].index);
                            assert(spec_blob_run_verdict_from(run@, a as int) == Some(
                                CouplingError::RepeatIndex(run@[a as int].index),
                            ));
                            assert(spec_pair_blobs(blocks_pre, sidecars_pre) == Err::<
                                Seq<Seq<BlobSidecar>>,
                                CouplingError,
                            >(CouplingError::RepeatIndex(run@[a as int].index)));
                        }
                        return Err(CouplingError::RepeatIndex(run[a].index));
                    }
                    b = b + 1;
                }
                proof {
                    assert(!(exists|bb: int|
                        0 <= bb < a && run@[bb].index == run@[a as int].index));
                    assert(spec_blob_run_verdict_from(run@, a as int)
                        == spec_blob_run_verdict_from(run@, a + 1));
                }
                a = a + 1;
            }
            assert(spec_blob_run_verdict_from(run@, 0) is None);
            // Collect the run in ascending index order: one sweep per index.
            let mut blobs: Vec<BlobSidecar> = Vec::new();
            let mut idx: u64 = 0;
            proof {
                assert(blobs@ =~= spec_ordered_blob_run(run@, 0));
            }
            while idx < MAX_BLOBS_PER_BLOCK
                invariant
                    idx <= MAX_BLOBS_PER_BLOCK,
                    m == run@.len(),
                    blobs@ == spec_ordered_blob_run(run@, idx as int),
                    forall|t: int| 0 <= t < blobs@.len() ==> (#[trigger] blobs@[t]).index < idx,
                decreases MAX_BLOBS_PER_BLOCK - idx,
            {
                let ghost base = blobs@;
                let mut c: usize = 0;
                proof {
                    assert(run@.take(0) =~= Seq::<BlobSidecar>::empty());
                }
                while c < m
                    invariant
                        c <= m,
                        m == run@.len(),
                        base == spec_ordered_blob_run(run@, idx as int),
                        forall|t: int| 0 <= t < base.len() ==> (#[trigger] base[t]).index < idx,
                        blobs@ == base + (match spec_first_blob_with_index(
                            run@.take(c as int),
                            idx,
                        ) {
                            Some(found) => seq![found],
                            None => Seq::<BlobSidecar>::empty(),
                        }),
                    decreases m - c,
                {
                    proof {
                        assert(run@.take(c + 1).drop_last() =~= run@.take(c as int));
                        assert(run@.take(c + 1).last() == run@[c as int]);
                    }
                    if run[c].index == idx {
                        if blobs.len() == 0 || blobs[blobs.len() - 1].index < idx {
                            proof {
                                lemma_first_blob_index(run@.take(c as int), idx);
                                assert(spec_first_blob_with_index(run@.take(c as int), idx)
                                    is None);
                            }
                            blobs.push(run[c]);
                            proof {
                                assert(blobs@ =~= base + seq![run@[c as int]]);
                            }
                        } else {
                            proof {
                                lemma_first_blob_index(run@.take(c as int), idx);
                                assert(spec_first_blob_with_index(run@.take(c as int), idx)
                                    is Some);
                            }
                        }
                    }
                    c = c + 1;
                }
                proof {
                    assert(run@.take(m as int) =~= run@);
                    assert(blobs@ =~= spec_ordered_blob_run(run@, idx + 1));
                    lemma_first_blob_index(run@, idx);
                    assert forall|t: int|
                        0 <= t < blobs@.len() implies (#[trigger] blobs@[t]).index < idx + 1 by {
                        if t < base.len() {
                            assert(blobs@[t] == base[t]);
                        }
                    }
                }
                idx = idx + 1;
            }
            let ghost run_ordered = blobs@;
            proof {
                assert(run_ordered == spec_ordered_blob_run(run@, MAX_BLOBS_PER_BLOCK as int));
            }
            responses.push(RpcBlock { block, blobs: Some(blobs), data_columns: None });
            proof {
                let ghost done_prev = done_runs;
                done_runs = done_runs.push(run_ordered);
                match spec_pair_blobs(blocks@, sidecars@) {
                    Err(e) => {},
                    Ok(rest) => {
                        assert(done_prev + (seq![run_ordered] + rest) =~= done_runs + rest);
                    },
                }
            }
        }
        assert(blocks@.len() == 0);
        if sidecars.len() > 0 {
            proof {
                assert(spec_pair_blobs(blocks@, sidecars@) == Err::<
                    Seq<Seq<BlobSidecar>>,
                    CouplingError,
                >(CouplingError::UnpairedSidecars));
            }
            return Err(CouplingError::UnpairedSidecars);
        }
        proof {
            assert(spec_pair_blobs(blocks@, sidecars@) == Ok::<
                Seq<Seq<BlobSidecar>>,
                CouplingError,
            >(Seq::<Seq<BlobSidecar>>::empty()));
            assert(done_runs + Seq::<Seq<BlobSidecar>>::empty() =~= done_runs);
        }
        Ok(responses)
    }
}

/// Length of the run of column sidecars at `slot` at the front of the queue.
pub open spec fn spec_column_run_len(sidecars: Seq<DataColumnSidecar>, slot: u64) -> int
    decreases sidecars.len(),
{
    if sidecars.len() == 0 || sidecars.first().slot != slot {
        0int
    } else {
        1 + spec_column_run_len(sidecars.drop_first(), slot)
    }
}

/// The first index-rule violation in a run of column sidecars, scanning in
/// order from position `a`: an index at or beyond the bound, or one already
/// used earlier in the run.
pub open spec fn spec_column_run_verdict_from(run: Seq<DataColumnSidecar>, a: int) -> Option<CouplingError>
    decreases run.len() - a,
{
    if a < 0 || a >= run.len() {
        None
    } else if run[a].index >= NUMBER_OF_COLUMNS {
        Some(CouplingError::InvalidIndex(run[a].index))
    } else if exists|b: int| 0 <= b < a && run[b].index == run[a].index {
        Some(CouplingError::RepeatIndex(run[a].index))
    } else {
        spec_column_run_verdict_from(run, a + 1)
    }
}

/// The first sidecar in `run` with index `idx`, if any.
pub open spec fn spec_first_column_with_index(run: Seq<DataColumnSidecar>, idx: u64) -> Option<DataColumnSidecar>
    decreases run.len(),
{
    if run.len() == 0 {
        None
    } else {
        match spec_first_column_with_index(run.drop_last(), idx) {
            Some(found) => Some(found),
            None => if run.last().index == idx {
                Some(run.last())
            } else {
                None
            },
        }
    }
}

/// A found sidecar carries the index it was searched for.
proof fn lemma_first_column_index(run: Seq<DataColumnSidecar>, idx: u64)
    ensures
        spec_first_column_with_index(run, idx) matches Some(found) ==> found.index == idx,
    decreases run.len(),
{
    if run.len() > 0 {
        lemma_first_column_index(run.drop_last(), idx);
    }
}

/// The run arranged by ascending index: for each index below `upto`, its
/// sidecar when the run holds one.
pub open spec fn spec_ordered_column_run(run: Seq<DataColumnSidecar>, upto: int) -> Seq<DataColumnSidecar>
    decreases upto,
{
    if upto <= 0 {
        Seq::<DataColumnSidecar>::empty()
    } else {
        spec_ordered_column_run(run, upto - 1) + (match spec_first_column_with_index(
            run,
            (upto - 1) as u64,
        ) {
            Some(found) => seq![found],
            None => Seq::<DataColumnSidecar>::empty(),
        })
    }
}

/// The pairing of column sidecars to blocks: each block, in order, consumes the
/// run of sidecars at its slot from the front of the queue. The result holds
/// each block's run ordered by index; the first violation — an out-of-range
/// index, a repeated index, or sidecars left after the last block — fails the
/// whole pairing.
pub open spec fn spec_pair_columns(blocks: Seq<SignedBlock>, sidecars: Seq<DataColumnSidecar>) -> Result<
    Seq<Seq<DataColumnSidecar>>,
    CouplingError,
>
    decreases blocks.len(),
{
    if blocks.len() == 0 {
        if sidecars.len() == 0 {
            Ok(Seq::<Seq<DataColumnSidecar>>::empty())
        } else {
            Err(CouplingError::UnpairedSidecars)
        }
    } else {
        let k = spec_column_run_len(sidecars, blocks.first().message.slot);
        let run = sidecars.take(k);
        match spec_column_run_verdict_from(run, 0) {
            Some(e) => Err(e),
            None => match spec_pair_columns(blocks.drop_first(), sidecars.skip(k)) {
                Err(e) => Err(e),
                Ok(rest) => Ok(
                    seq![spec_ordered_column_run(run, NUMBER_OF_COLUMNS as int)] + rest,
                ),
            },
        }
    }
}

/// A prefix of matching slots that ends at a mismatch (or the queue's end)
/// is exactly the run the pairing takes.
proof fn lemma_column_run_len(sidecars: Seq<DataColumnSidecar>, slot: u64, k: int)
    requires
        0 <= k <= sidecars.len(),
        forall|t: int| 0 <= t < k ==> (#[trigger] sidecars[t]).slot == slot,
        k == sidecars.len() || sidecars[k].slot != slot,
    ensures
        spec_column_run_len(sidecars, slot) == k,
    decreases k,
{
    if k == 0 {
    } else {
        assert(sidecars.first().slot == slot);
        lemma_column_run_len(sidecars.drop_first(), slot, k - 1);
    }
}

/// Blocks and data-column sidecars accumulated from one range request.
pub struct BlocksAndDataColumnsRequestInfo {
    accumulated_blocks: Vec<SignedBlock>,
    accumulated_data_column_sidecars: Vec<DataColumnSidecar>,
    is_blocks_stream_terminated: bool,
    is_data_column_sidecars_stream_terminated: bool,
}

impl BlocksAndDataColumnsRequestInfo {
    /// The accumulated blocks, in stream order.
    pub closed spec fn view_blocks(self) -> Seq<SignedBlock> {
        self.accumulated_blocks@
    }

    /// The accumulated column sidecars, in stream order.
    pub closed spec fn view_sidecars(self) -> Seq<DataColumnSidecar> {
        self.accumulated_data_column_sidecars@
    }

    /// Whether the block stream has terminated.
    pub closed spec fn spec_blocks_stream_terminated(self) -> bool {
        self.is_blocks_stream_terminated
    }

    /// Whether the column stream has terminated.
    pub closed spec fn spec_sidecars_stream_terminated(self) -> bool {
        self.is_data_column_sidecars_stream_terminated
    }

    /// Whether both streams have terminated.
    pub open spec fn spec_is_finished(self) -> bool {
        self.spec_blocks_stream_terminated() && self.spec_sidecars_stream_terminated()
    }

    /// An empty accumulator with both streams still open.
    pub fn new() -> (r: Self)
        ensures
            r.view_blocks() == Seq::<SignedBlock>::empty(),
            r.view_sidecars() == Seq::<DataColumnSidecar>::empty(),
            !r.spec_blocks_stream_terminated(),
            !r.spec_sidecars_stream_terminated(),
    {
        BlocksAndDataColumnsRequestInfo {
            accumulated_blocks: Vec::new(),
            accumulated_data_column_sidecars: Vec::new(),
            is_blocks_stream_terminated: false,
            is_data_column_sidecars_stream_terminated: false,
        }
    }

    /// Accumulates one block-stream response: a block is appended at the back
    /// (order preserved), the stream's end marks the block stream terminated;
    /// neither touches the column side.
    pub fn add_block_response(&mut self, block_opt: Option<SignedBlock>)
        ensures
            final(self).view_sidecars() == old(self).view_sidecars(),
            final(self).spec_sidecars_stream_terminated() == old(self).spec_sidecars_stream_terminated(),
            match block_opt {
                Some(block) => final(self).view_blocks() == old(self).view_blocks().push(block)
                    && final(self).spec_blocks_stream_terminated() == old(self).spec_blocks_stream_terminated(),
                None => final(self).view_blocks() == old(self).view_blocks() && final(self).spec_blocks_stream_terminated(),
            },
    {
        match block_opt {
            Some(block) => self.accumulated_blocks.push(block),
            None => {
                self.is_blocks_stream_terminated = true;
            },
        }
    }

    /// Accumulates one column-stream response: a sidecar is appended at the
    /// back (order preserved), the stream's end marks the column stream
    /// terminated; neither touches the block side.
    pub fn add_data_column_sidecar_response(
        &mut self,
        data_column_sidecar_opt: Option<DataColumnSidecar>,
    )
        ensures
            final(self).view_blocks() == old(self).view_blocks(),
            final(self).spec_blocks_stream_terminated() == old(self).spec_blocks_stream_terminated(),
            match data_column_sidecar_opt {
                Some(sidecar) => final(self).view_sidecars() == old(self).view_sidecars().push(
                    sidecar,
                ) && final(self).spec_sidecars_stream_terminated() == old(self).spec_sidecars_stream_terminated(),
                None => final(self).view_sidecars() == old(self).view_sidecars() && final(self).spec_sidecars_stream_terminated(),
            },
    {
        match data_column_sidecar_opt {
            Some(sidecar) => self.accumulated_data_column_sidecars.push(sidecar),
            None => {
                self.is_data_column_sidecars_stream_terminated = true;
            },
        }
    }

    /// Whether both streams have terminated and pairing can begin.
    pub fn is_finished(&self) -> (r: bool)
        ensures
            r == self.spec_is_finished(),
    {
        self.is_blocks_stream_terminated && self.is_data_column_sidecars_stream_terminated
    }

    /// Pairs the accumulated column sidecars to their blocks, exactly as the
    /// pairing spec describes: each block, in order, takes the run of
    /// sidecars at its slot from the front of the queue, ordered by index;
    /// an out-of-range or repeated index fails, as do sidecars left over
    /// after the last block (a sidecar for a skipped slot pairs with
    /// nothing).
    #[verifier::loop_isolation(false)]
    pub fn into_responses(self) -> (r: Result<Vec<RpcBlock>, CouplingError>)
        ensures
            match r {
                Ok(out) => {
                    &&& spec_pair_columns(self.view_blocks(), self.view_sidecars()) matches Ok(runs)
                    &&& out@.len() == self.view_blocks().len()
                    &&& forall|i: int|
                        0 <= i < out@.len() ==> (#[trigger] out@[i]).block == self.view_blocks()[i]
                            && out@[i].blobs is None && (out@[i].data_columns matches Some(v) && v@
                            == spec_pair_columns(
                            self.view_blocks(),
                            self.view_sidecars(),
                        ).unwrap()[i])
                },
                Err(e) => spec_pair_columns(self.view_blocks(), self.view_sidecars()) == Err::<
                    Seq<Seq<DataColumnSidecar>>,
                    CouplingError,
                >(e),
            },
    {
        let BlocksAndDataColumnsRequestInfo {
            accumulated_blocks,
            accumulated_data_column_sidecars,
            ..
        } = self;
        let ghost blocks0 = accumulated_blocks@;
        let ghost sidecars0 = accumulated_data_column_sidecars@;
        let mut responses: Vec<RpcBlock> = Vec::new();
        let mut blocks = accumulated_blocks;
        let mut sidecars = accumulated_data_column_sidecars;
        let ghost mut done_runs: Seq<Seq<DataColumnSidecar>> = Seq::<Seq<DataColumnSidecar>>::empty();
        while blocks.len() > 0
            invariant
                responses@.len() + blocks@.len() == blocks0.len(),
                blocks0.skip(responses@.len() as int) =~= blocks@,
                done_runs.len() == responses@.len(),
                spec_pair_columns(blocks0, sidecars0) == (match spec_pair_columns(blocks@, sidecars@) {
                    Err(e) => Err::<Seq<Seq<DataColumnSidecar>>, CouplingError>(e),
                    Ok(rest) => Ok::<Seq<Seq<DataColumnSidecar>>, CouplingError>(done_runs + rest),
                }),
                forall|i: int|
                    0 <= i < responses@.len() ==> (#[trigger] responses@[i]).block == blocks0[i]
                        && responses@[i].blobs is None && (responses@[i].data_columns
                        matches Some(v) && v@ == done_runs[i]),
            decreases blocks@.len(),
        {
            let ghost blocks_pre = blocks@;
            let ghost sidecars_pre = sidecars@;
            let block = blocks.remove(0);
            proof {
                assert(blocks@ =~= blocks_pre.drop_first());
                assert(blocks_pre.first() == blocks_pre[0]);
            }
            let block_slot = block.message.slot;
            // Measure the run of sidecars at this block's slot.
            let mut k: usize = 0;
            while k < sidecars.len() && sidecars[k].slot == block_slot
                invariant
                    k <= sidecars@.len(),
                    sidecars@ == sidecars_pre,
                    forall|t: int| 0 <= t < k ==> (#[trigger] sidecars@[t]).slot == block_slot,
                decreases sidecars@.len() - k,
            {
                k = k + 1;
            }
            proof {
                lemma_column_run_len(sidecars_pre, block_slot, k as int);
            }
            let tail = sidecars.split_off(k);
            let run = sidecars;
            sidecars = tail;
            proof {
                assert(run@ =~= sidecars_pre.take(k as int));
                assert(sidecars@ =~= sidecars_pre.skip(k as int));
            }
            // Every index must be in range and unique within the run.
            let m = run.len();
            let mut a: usize = 0;
            while a < m
                invariant
                    a <= m,
                    m == run@.len(),
                    spec_column_run_verdict_from(run@, 0) == spec_column_run_verdict_from(
                        run@,
                        a as int,
                    ),
                    forall|t: int|
                        0 <= t < a ==> (#[trigger] run@[t]).index < NUMBER_OF_COLUMNS,
                    forall|t1: int, t2: int| 0 <= t1 < t2 < a ==> run@[t1].index != run@[t2].index,
                decreases m - a,
            {
                if run[a].index >= NUMBER_OF_COLUMNS {
                    proof {
                        assert(spec_column_run_verdict_from(run@, a as int) == Some(
                            CouplingError::InvalidIndex(run@[a as int].index),
                        ));
                        assert(spec_pair_columns(blocks_pre, sidecars_pre) == Err::<
                            Seq<Seq<DataColumnSidecar>>,
                            CouplingError,
                        >(CouplingError::InvalidIndex(run@[a as int].index)));
                    }
                    return Err(CouplingError::InvalidIndex(run[a].index));
                }
                let mut b: usize = 0;
                while b < a
                    invariant
                        b <= a < m,
                        m == run@.len(),
                        forall|t: int|
                            0 <= t < b ==> (#[trigger] run@[t]).index != run@[a as int].index,
                    decreases a - b,
                {
                    if run[b].index == run[a].index {
                        proof {
                            assert(0 <= b < a && run@[b as int].index == run@[a as int].index);
                            assert(exists|bb: int|
                                0 <= bb < a && run@[bb].index == run@[a as int].index);
                            assert(spec_column_run_verdict_from(run@, a as int) == Some(
                                CouplingError::RepeatIndex(run@[a as int].index),
                            ));
                            assert(spec_pair_columns(blocks_pre, sidecars_pre) == Err::<
                                Seq<Seq<DataColumnSidecar>>,
                                CouplingError,
                            >(CouplingError::RepeatIndex(run@[a as int].index)));
                        }
                        return Err(CouplingError::RepeatIndex(run[a].index));
                    }
                    b = b + 1;
                }
                proof {
                    assert(!(exists|bb: int|
                        0 <= bb < a && run@[bb].index == run@[a as int].index));
                    assert(spec_column_run_verdict_from(run@, a as int)
                        == spec_column_run_verdict_from(run@, a + 1));
                }
                a = a + 1;
            }
            assert(spec_column_run_verdict_from(run@, 0) is None);
            // Collect the run in ascending index order: one sweep per index.
            let mut columns: Vec<DataColumnSidecar> = Vec::new();
            let mut idx: u64 = 0;
            proof {
                assert(columns@ =~= spec_ordered_column_run(run@, 0));
            }
            while idx < NUMBER_OF_COLUMNS
                invariant
                    idx <= NUMBER_OF_COLUMNS,
                    m == run@.len(),
                    columns@ == spec_ordered_column_run(run@, idx as int),
                    forall|t: int| 0 <= t < columns@.len() ==> (#[trigger] columns@[t]).index < idx,
                decreases NUMBER_OF_COLUMNS - idx,
            {
                let ghost base = columns@;
                let mut c: usize = 0;
                proof {
                    assert(run@.take(0) =~= Seq::<DataColumnSidecar>::empty());
                }
                while c < m
                    invariant
                        c <= m,
                        m == run@.len(),
                        base == spec_ordered_column_run(run@, idx as int),
                        forall|t: int| 0 <= t < base.len() ==> (#[trigger] base[t]).index < idx,
                        columns@ == base + (match spec_first_column_with_index(
                            run@.take(c as int),
                            idx,
                        ) {
                            Some(found) => seq![found],
                            None => Seq::<DataColumnSidecar>::empty(),
                        }),
                    decreases m - c,
                {
                    proof {
                        assert(run@.take(c + 1).drop_last() =~= run@.take(c as int));
                        assert(run@.take(c + 1).last() == run@[c as int]);
                    }
                    if run[c].index == idx {
                        if columns.len() == 0 || columns[columns.len() - 1].index < idx {
                            proof {
                                lemma_first_column_index(run@.take(c as int), idx);
                                assert(spec_first_column_with_index(run@.take(c as int), idx)
                                    is None);
                            }
                            columns.push(run[c]);
                            proof {
                                assert(columns@ =~= base + seq![run@[c as int]]);
                            }
                        } else {
                            proof {
                                lemma_first_column_index(run@.take(c as int), idx);
                                assert(spec_first_column_with_index(run@.take(c as int), idx)
                                    is Some);
                            }
                        }
                    }
                    c = c + 1;
                }
                proof {
                    assert(run@.take(m as int) =~= run@);
                    assert(columns@ =~= spec_ordered_column_run(run@, idx + 1));
                    lemma_first_column_index(run@, idx);
                    assert forall|t: int|
                        0 <= t < columns@.len() implies (#[trigger] columns@[t]).index < idx + 1 by {
                        if t < base.len() {
                            assert(columns@[t] == base[t]);
                        }
                    }
                }
                idx = idx + 1;
            }
            let ghost run_ordered = columns@;
            proof {
                assert(run_ordered == spec_ordered_column_run(run@, NUMBER_OF_COLUMNS as int));
            }
            responses.push(RpcBlock { block, blobs: None, data_columns: Some(columns) });
            proof {
                let ghost done_prev = done_runs;
                done_runs = done_runs.push(run_ordered);
                match spec_pair_columns(blocks@, sidecars@) {
                    Err(e) => {},
                    Ok(rest) => {
                        assert(done_prev + (seq![run_ordered] + rest) =~= done_runs + rest);
                    },
                }
            }
        }
        assert(blocks@.len() == 0);
        if sidecars.len() > 0 {
            proof {
                assert(spec_pair_columns(blocks@, sidecars@) == Err::<
                    Seq<Seq<DataColumnSidecar>>,
                    CouplingError,
                >(CouplingError::UnpairedSidecars));
            }
            return Err(CouplingError::UnpairedSidecars);
        }
        proof {
            assert(spec_pair_columns(blocks@, sidecars@) == Ok::<
                Seq<Seq<DataColumnSidecar>>,
                CouplingError,
            >(Seq::<Seq<DataColumnSidecar>>::empty()));
            assert(done_runs + Seq::<Seq<DataColumnSidecar>>::empty() =~= done_runs);
        }
        Ok(responses)
    }
}

} // verus!
