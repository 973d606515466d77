//! The durable hot store consumed by block verification: blinded blocks (as
//! headers), hot states with their summaries, and the temporary-state flags
//! that make incremental state staging crash-safe.
//!
//! A state stored with a temporary flag is provisional: if the enclosing
//! import never commits, start-up garbage collection removes it.

use vstd::prelude::*;
use crate::state::{BeaconState, StateModel};
use crate::types::SignedBlockHeader;

verus! {

/// Storage errors.
#[derive(Clone, Debug, PartialEq, Eq)]
pub enum Error {
    /// The backend reported a failure.
    DBError { message: String },
    /// A block expected in the store is missing.
    BlockNotFound(u64),
    /// The block or state is unavailable due to weak-subjectivity sync.
    HistoryUnavailable,
}

/// A backend failure message.
#[derive(Clone, Debug, PartialEq, Eq)]
pub struct DBError {
    pub message: String,
}

impl DBError {
    /// Wraps a backend failure message.
    pub fn new(message: String) -> (r: Self)
        ensures
            r.message == message,
    {
        DBError { message }
    }
}

/// Maps "history unavailable" to an absent value, keeping other errors.
pub trait HandleUnavailable<T>: Sized {
    fn handle_unavailable(self) -> (r: Result<Option<T>, Error>);
}

impl<T> HandleUnavailable<T> for Result<T, Error> {
    /// Ok stays Ok, a history gap becomes None, other errors stay errors.
    fn handle_unavailable(self) -> (r: Result<Option<T>, Error>) {
        match self {
            Ok(x) => Ok(Some(x)),
            Err(Error::HistoryUnavailable) => Ok(None),
            Err(e) => Err(e),
        }
    }
}

/// A stored blinded block: its root and header.
#[derive(Clone, Copy, Debug, PartialEq, Eq, Structural)]
pub struct StoredBlock {
    pub root: u64,
    pub header: SignedBlockHeader,
}

/// Summary of a hot state, stored in place of a full state off epoch
/// boundaries.
#[derive(Clone, Copy, Debug, PartialEq, Eq, Structural)]
pub struct HotStateSummary {
    pub state_root: u64,
    pub slot: u64,
}

/// A stored hot state.
pub struct StoredState {
    pub root: u64,
    pub state: BeaconState,
}

/// One operation of an atomic write batch.
pub enum StoreOp {
    PutState(u64, BeaconState),
    PutStateSummary(u64, HotStateSummary),
    PutStateTemporaryFlag(u64),
    DeleteStateTemporaryFlag(u64),
}

/// Mathematical view of the store.
pub struct StoreModel {
    pub anchor_slot: Option<u64>,
    pub blocks: Seq<StoredBlock>,
    /// Stored states as (state root, state) pairs, in insertion order.
    pub states: Seq<(u64, StateModel)>,
    pub summaries: Seq<HotStateSummary>,
    pub temp_flags: Seq<u64>,
}

/// View of a stored-state vector: (root, state) pairs.
pub open spec fn states_model(states: Seq<StoredState>) -> Seq<(u64, StateModel)> {
    states.map_values(|e: StoredState| (e.root, e.state@))
}

/// The first stored block with `root`.
pub open spec fn spec_find_stored_block(blocks: Seq<StoredBlock>, root: u64) -> Option<
    SignedBlockHeader,
>
    decreases blocks.len(),
{
    if blocks.len() == 0 {
        None
    } else if blocks.first().root == root {
        Some(blocks.first().header)
    } else {
        spec_find_stored_block(blocks.drop_first(), root)
    }
}

/// The first stored state with `root`.
pub open spec fn spec_find_state(states: Seq<(u64, StateModel)>, root: u64) -> Option<StateModel>
    decreases states.len(),
{
    if states.len() == 0 {
        None
    } else if states.first().0 == root {
        Some(states.first().1)
    } else {
        spec_find_state(states.drop_first(), root)
    }
}

/// The first summary with `state_root`.
pub open spec fn spec_find_summary(summaries: Seq<HotStateSummary>, root: u64) -> Option<
    HotStateSummary,
>
    decreases summaries.len(),
{
    if summaries.len() == 0 {
        None
    } else if summaries.first().state_root == root {
        Some(summaries.first())
    } else {
        spec_find_summary(summaries.drop_first(), root)
    }
}

/// The store after one batch operation.
pub open spec fn spec_apply_op(m: StoreModel, op: StoreOp) -> StoreModel {
    match op {
        StoreOp::PutState(root, state) => StoreModel {
            states: m.states.push((root, state@)),
            ..m
        },
        StoreOp::PutStateSummary(root, summary) => StoreModel {
            summaries: m.summaries.push(summary),
            ..m
        },
        StoreOp::PutStateTemporaryFlag(root) => StoreModel {
            temp_flags: m.temp_flags.push(root),
            ..m
        },
        StoreOp::DeleteStateTemporaryFlag(root) => StoreModel {
            temp_flags: m.temp_flags.filter(|r: u64| r != root),
            ..m
        },
    }
}

/// The store after a whole batch, applied in order.
pub open spec fn spec_apply_ops(m: StoreModel, ops: Seq<StoreOp>) -> StoreModel
    decreases ops.len(),
{
    if ops.len() == 0 {
        m
    } else {
        spec_apply_ops(spec_apply_op(m, ops.first()), ops.drop_first())
    }
}

/// The hot database: blinded blocks, hot states, their summaries, and the
/// temporary flags of provisional states.
pub struct HotColdDB {
    /// Slot of the weak-subjectivity anchor, if one is configured.
    pub anchor_slot: Option<u64>,
    pub blocks: Vec<StoredBlock>,
    pub states: Vec<StoredState>,
    pub summaries: Vec<HotStateSummary>,
    /// State roots currently flagged temporary.
    pub temp_flags: Vec<u64>,
}

impl View for HotColdDB {
    type V = StoreModel;

    open spec fn view(&self) -> StoreModel {
        StoreModel {
            anchor_slot: self.anchor_slot,
            blocks: self.blocks@,
            states: states_model(self.states@),
            summaries: self.summaries@,
            temp_flags: self.temp_flags@,
        }
    }
}

impl HotColdDB {
    /// An empty store, optionally anchored.
    pub fn new(anchor_slot: Option<u64>) -> (r: Self)
        ensures
            r@.anchor_slot == anchor_slot,
            r@.blocks.len() == 0,
            r@.states.len() == 0,
            r@.summaries.len() == 0,
            r@.temp_flags.len() == 0,
    {
        HotColdDB {
            anchor_slot,
            blocks: Vec::new(),
            states: Vec::new(),
            summaries: Vec::new(),
            temp_flags: Vec::new(),
        }
    }

    /// Slot of the weak-subjectivity anchor, if configured.
    pub fn get_anchor_slot(&self) -> (r: Option<u64>)
        ensures
            r == self@.anchor_slot,
    {
        self.anchor_slot
    }

    /// Whether a block with this root is stored.
    pub fn block_exists(&self, block_root: u64) -> (r: bool)
        ensures
            r == (spec_find_stored_block(self@.blocks, block_root) is Some),
    {
        self.get_blinded_block(block_root).is_some()
    }

    /// The stored blinded block with this root, if any.
    pub fn get_blinded_block(&self, block_root: u64) -> (r: Option<SignedBlockHeader>)
        ensures
            r == spec_find_stored_block(self@.blocks, block_root),
    {
        let n = self.blocks.len();
        let ghost blocks = self.blocks@;
        proof {
            assert(blocks.skip(0) =~= blocks);
        }
        for i in 0..n
            invariant
                n == blocks.len(),
                blocks == self.blocks@,
                spec_find_stored_block(blocks, block_root) == spec_find_stored_block(
                    blocks.skip(i as int),
                    block_root,
                ),
        {
            proof {
                assert(blocks.skip(i as int).first() == blocks[i as int]);
                assert(blocks.skip(i as int).drop_first() =~= blocks.skip(i + 1));
            }
            if self.blocks[i].root == block_root {
                return Some(self.blocks[i].header);
            }
        }
        assert(blocks.skip(n as int) =~= Seq::<StoredBlock>::empty());
        None
    }

    /// Stores a blinded block.
    pub fn put_block(&mut self, block_root: u64, header: SignedBlockHeader)
        ensures
            final(self)@ == (StoreModel {
                blocks: old(self)@.blocks.push(StoredBlock { root: block_root, header }),
                ..old(self)@
            }),
    {
        self.blocks.push(StoredBlock { root: block_root, header });
        assert(final(self)@.blocks =~= old(self)@.blocks.push(
            StoredBlock { root: block_root, header },
        ));
        assert(final(self)@.states =~= old(self)@.states);
    }

    /// Stores a hot state under its root.
    pub fn put_state(&mut self, state_root: u64, state: BeaconState)
        ensures
            final(self)@ == (StoreModel {
                states: old(self)@.states.push((state_root, state@)),
                ..old(self)@
            }),
    {
        self.states.push(StoredState { root: state_root, state });
        assert(final(self)@.states =~= old(self)@.states.push((state_root, state@)));
    }

    /// The stored state recorded under `state_root` (the state root the parent
    /// block declares, or an advanced root not past `max_slot`), paired with
    /// that root.
    pub fn get_advanced_hot_state(
        &self,
        block_root: u64,
        max_slot: u64,
        state_root: u64,
    ) -> (r: Option<(u64, BeaconState)>)
        ensures
            match r {
                Some((root, state)) => root == state_root && spec_find_state(
                    self@.states,
                    state_root,
                ) == Some(state@),
                None => spec_find_state(self@.states, state_root) is None,
            },
    {
        let n = self.states.len();
        let ghost states = states_model(self.states@);
        proof {
            assert(states.skip(0) =~= states);
        }
        for i in 0..n
            invariant
                n == self.states@.len(),
                states == states_model(self.states@),
                states.len() == n,
                spec_find_state(states, state_root) == spec_find_state(
                    states.skip(i as int),
                    state_root,
                ),
        {
            proof {
                assert(states.skip(i as int).first() == states[i as int]);
                assert(states.skip(i as int).drop_first() =~= states.skip(i + 1));
                let ghost entry = self.states@[i as int];
                assert(states[i as int] == (entry.root, entry.state@));
            }
            if self.states[i].root == state_root {
                return Some((state_root, self.states[i].state.duplicate()));
            }
        }
        assert(states.skip(n as int) =~= Seq::<(u64, StateModel)>::empty());
        None
    }

    /// The summary of the state with this root, if stored.
    pub fn load_hot_state_summary(&self, state_root: u64) -> (r: Option<HotStateSummary>)
        ensures
            r == spec_find_summary(self@.summaries, state_root),
    {
        let n = self.summaries.len();
        let ghost summaries = self.summaries@;
        proof {
            assert(summaries.skip(0) =~= summaries);
        }
        for i in 0..n
            invariant
                n == summaries.len(),
                summaries == self.summaries@,
                spec_find_summary(summaries, state_root) == spec_find_summary(
                    summaries.skip(i as int),
                    state_root,
                ),
        {
            proof {
                assert(summaries.skip(i as int).first() == summaries[i as int]);
                assert(summaries.skip(i as int).drop_first() =~= summaries.skip(i + 1));
            }
            if self.summaries[i].state_root == state_root {
                return Some(self.summaries[i]);
            }
        }
        assert(summaries.skip(n as int) =~= Seq::<HotStateSummary>::empty());
        None
    }

    /// Applies one batch operation.
    fn apply_op(&mut self, op: StoreOp)
        ensures
            final(self)@ == spec_apply_op(old(self)@, op),
    {
        match op {
            StoreOp::PutState(root, state) => {
                let ghost model = state@;
                self.states.push(StoredState { root, state });
                assert(final(self)@.states =~= old(self)@.states.push((root, model)));
            },
            StoreOp::PutStateSummary(root, summary) => {
                self.summaries.push(summary);
            },
            StoreOp::PutStateTemporaryFlag(root) => {
                self.temp_flags.push(root);
            },
            StoreOp::DeleteStateTemporaryFlag(root) => {
                let n = self.temp_flags.len();
                let mut kept: Vec<u64> = Vec::new();
                let ghost flags = self.temp_flags@;
                proof {
                    assert(flags.take(0) =~= Seq::<u64>::empty());
                    assert(Seq::<u64>::empty().filter(|r: u64| r != root) =~= Seq::<u64>::empty());
                }
                for i in 0..n
                    invariant
                        n == flags.len(),
                        flags == self.temp_flags@,
                        kept@ == flags.take(i as int).filter(|r: u64| r != root),
                {
                    proof {
                        assert(flags.take(i + 1) =~= flags.take(i as int).push(flags[i as int]));
                        Seq::lemma_filter_push(
                            flags.take(i as int),
                            flags[i as int],
                            |r: u64| r != root,
                        );
                    }
                    let flag = self.temp_flags[i];
                    if flag != root {
                        kept.push(flag);
                    }
                }
                proof {
                    assert(flags.take(n as int) =~= flags);
                }
                self.temp_flags = kept;
            },
        }
    }

    /// Applies a write batch atomically: all operations, in order. The caller
    /// serialises batches behind the store's transaction lock.
    pub fn do_atomically(&mut self, ops: Vec<StoreOp>)
        ensures
            final(self)@ == spec_apply_ops(old(self)@, ops@),
    {
        let mut remaining = ops;
        let ghost orig_ops = remaining@;
        while remaining.len() > 0
            invariant
                spec_apply_ops(old(self)@, orig_ops) == spec_apply_ops(self@, remaining@),
            decreases remaining@.len(),
        {
            let ghost before = remaining@;
            let op = remaining.remove(0);
            proof {
                assert(before.first() == op);
                assert(before.drop_first() =~= remaining@);
            }
            self.apply_op(op);
        }
        assert(spec_apply_ops(self@, remaining@) == self@);
    }

    /// The state roots currently flagged temporary, in flag order.
    pub fn iter_temporary_state_roots(&self) -> (r: Vec<u64>)
        ensures
            r@ == self@.temp_flags,
    {
        let n = self.temp_flags.len();
        let mut out: Vec<u64> = Vec::new();
        for i in 0..n
            invariant
                n == self.temp_flags@.len(),
                out@ =~= self.temp_flags@.take(i as int),
        {
            out.push(self.temp_flags[i]);
            assert(out@ =~= self.temp_flags@.take(i + 1));
        }
        assert(self.temp_flags@.take(n as int) =~= self.temp_flags@);
        out
    }

    /// Deletes the temporary states left over by failed block imports: every
    /// state and summary whose root is flagged temporary, and the flags
    /// themselves.
    pub fn delete_temp_states(&mut self) -> (r: Result<(), Error>)
        ensures
            r is Ok,
            final(self)@ == (StoreModel {
                states: old(self)@.states.filter(
                    |e: (u64, StateModel)| !old(self)@.temp_flags.contains(e.0),
                ),
                summaries: old(self)@.summaries.filter(
                    |e: HotStateSummary| !old(self)@.temp_flags.contains(e.state_root),
                ),
                temp_flags: Seq::<u64>::empty(),
                ..old(self)@
            }),
    {
        let ghost flags = self.temp_flags@;
        let n = self.states.len();
        let mut kept_states: Vec<StoredState> = Vec::new();
        let ghost states = states_model(self.states@);
        proof {
            assert(states.take(0) =~= Seq::<(u64, StateModel)>::empty());
            assert(Seq::<(u64, StateModel)>::empty().filter(
                |e: (u64, StateModel)| !flags.contains(e.0),
            ) =~= Seq::<(u64, StateModel)>::empty());
            assert(states_model(kept_states@) =~= Seq::<(u64, StateModel)>::empty());
        }
        let mut i: usize = 0;
        while i < n
            invariant
                n == self.states@.len(),
                states == states_model(self.states@),
                states.len() == n,
                flags == self.temp_flags@,
                i <= n,
                states_model(kept_states@) == states.take(i as int).filter(
                    |e: (u64, StateModel)| !flags.contains(e.0),
                ),
            decreases n - i,
        {
            proof {
                let ghost entry = self.states@[i as int];
                assert(states[i as int] == (entry.root, entry.state@));
                assert(states.take(i + 1) =~= states.take(i as int).push(states[i as int]));
                Seq::lemma_filter_push(
                    states.take(i as int),
                    states[i as int],
                    |e: (u64, StateModel)| !flags.contains(e.0),
                );
            }
            let root = self.states[i].root;
            if !contains_root(&self.temp_flags, root) {
                let copy = StoredState { root, state: self.states[i].state.duplicate() };
                let ghost kept_before = kept_states@;
                kept_states.push(copy);
                proof {
                    assert(states_model(kept_states@) =~= states_model(kept_before).push(
                        (root, self.states@[i as int].state@),
                    ));
                }
            }
            i = i + 1;
        }
        proof {
            assert(states.take(n as int) =~= states);
        }
        self.states = kept_states;
        let m = self.summaries.len();
        let mut kept_summaries: Vec<HotStateSummary> = Vec::new();
        let ghost summaries = self.summaries@;
        proof {
            assert(summaries.take(0) =~= Seq::<HotStateSummary>::empty());
            assert(Seq::<HotStateSummary>::empty().filter(
                |e: HotStateSummary| !flags.contains(e.state_root),
            ) =~= Seq::<HotStateSummary>::empty());
        }
        let mut j: usize = 0;
        while j < m
            invariant
                m == summaries.len(),
                summaries == self.summaries@,
                flags == self.temp_flags@,
                j <= m,
                kept_summaries@ == summaries.take(j as int).filter(
                    |e: HotStateSummary| !flags.contains(e.state_root),
                ),
            decreases m - j,
        {
            proof {
                assert(summaries.take(j + 1) =~= summaries.take(j as int).push(
                    summaries[j as int],
                ));
                Seq::lemma_filter_push(
                    summaries.take(j as int),
                    summaries[j as int],
                    |e: HotStateSummary| !flags.contains(e.state_root),
                );
            }
            let summary = self.summaries[j];
            if !contains_root(&self.temp_flags, summary.state_root) {
                kept_summaries.push(summary);
            }
            j = j + 1;
        }
        proof {
            assert(summaries.take(m as int) =~= summaries);
        }
        self.summaries = kept_summaries;
        self.temp_flags = Vec::new();
        Ok(())
    }

    /// One-off start-up maintenance: garbage-collects temporary states.
    pub fn remove_garbage(&mut self) -> (r: Result<(), Error>)
        ensures
            r is Ok,
            final(self)@ == (StoreModel {
                states: old(self)@.states.filter(
                    |e: (u64, StateModel)| !old(self)@.temp_flags.contains(e.0),
                ),
                summaries: old(self)@.summaries.filter(
                    |e: HotStateSummary| !old(self)@.temp_flags.contains(e.state_root),
                ),
                temp_flags: Seq::<u64>::empty(),
                ..old(self)@
            }),
    {
        let res = self.delete_temp_states();
        res
    }
}

/// Whether `root` occurs in `roots`.
pub(crate) fn contains_root(roots: &Vec<u64>, root: u64) -> (r: bool)
    ensures
        r == roots@.contains(root),
{
    let n = roots.len();
    for i in 0..n
        invariant
            n == roots@.len(),
            forall|j: int| 0 <= j < i ==> roots@[j] != root,
    {
        if roots[i] == root {
            return true;
        }
    }
    assert(!roots@.contains(root));
    false
}

} // verus!
