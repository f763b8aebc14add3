//! The manager of the tasks that work on one shielded context.
//!
//! One channel takes every request that reads or changes the context, so
//! that their effects come one after the other, and lines up the requests to
//! save it. One actor takes the requests to save in the order in which they
//! were made, until it is told that no more will come.

use vstd::prelude::*;
use crate::context::{
    distinct_keys, spec_scan_entry, spec_scan_tx, spec_update_witness_map, Checkpoint, ContextView,
    DecryptedNote, ShieldedContext, TrialDecryption,
};
use crate::error::Error;
use crate::storage::{BlockHeight, IndexedTx};
use crate::tx::{Transaction, ViewingKey};

verus! {

/// A request to the actor that saves the context.
#[derive(Clone, Copy, Debug, PartialEq, Eq)]
pub enum Action {
    /// No more work will come.
    Complete,
    /// Save the context as it is when the request is taken up, and note the
    /// height up to which it has been fetched.
    Data(BlockHeight),
}

/// What the actor does with a request.
#[derive(Clone, Copy, Debug, PartialEq, Eq)]
pub enum Step {
    /// It stops: it was told to, or the channel is closed.
    Stop,
    /// It saves the context, fetched up to this height, and goes on.
    Save(BlockHeight),
}

/// The heights that the actor saves at when it is given `actions`: those of
/// the requests to save that come before the first request to stop.
pub open spec fn spec_saves(actions: Seq<Action>) -> Seq<BlockHeight>
    decreases actions.len(),
{
    if actions.len() == 0 {
        Seq::empty()
    } else {
        match actions[0] {
            Action::Complete => Seq::empty(),
            Action::Data(height) => seq![height] + spec_saves(actions.drop_first()),
        }
    }
}

/// The height that the actor has noted after it was given `actions`.
pub open spec fn spec_latest_height(latest: BlockHeight, actions: Seq<Action>) -> BlockHeight {
    if spec_saves(actions).len() == 0 {
        latest
    } else {
        spec_saves(actions).last()
    }
}

/// What comes after a request to stop is never taken up: to stop twice is to
/// stop once.
pub proof fn lemma_complete_ends_the_run(before: Seq<Action>, after: Seq<Action>)
    ensures
        spec_saves(before.push(Action::Complete) + after) == spec_saves(
            before.push(Action::Complete),
        ),
        spec_saves(before.push(Action::Complete).push(Action::Complete)) == spec_saves(
            before.push(Action::Complete),
        ),
    decreases before.len(),
{
    let once = before.push(Action::Complete);
    assert(once.push(Action::Complete) =~= once + seq![Action::Complete]);
    lemma_complete_ends_with(before, after);
    lemma_complete_ends_with(before, seq![Action::Complete]);
}

proof fn lemma_complete_ends_with(before: Seq<Action>, after: Seq<Action>)
    ensures
        spec_saves(before.push(Action::Complete) + after) == spec_saves(
            before.push(Action::Complete),
        ),
    decreases before.len(),
{
    let once = before.push(Action::Complete);
    let more = once + after;
    if before.len() == 0 {
        assert(once[0] == Action::Complete);
        assert(more[0] == Action::Complete);
    } else {
        assert(once[0] == before[0]);
        assert(more[0] == before[0]);
        assert(once.drop_first() =~= before.drop_first().push(Action::Complete));
        assert(more.drop_first() =~= before.drop_first().push(Action::Complete) + after);
        lemma_complete_ends_with(before.drop_first(), after);
    }
}

/// The actor that saves the context.
#[derive(Clone, Copy, Debug, PartialEq, Eq)]
pub struct TaskManager {
    /// The height up to which the context that was saved last was fetched.
    pub latest_height: BlockHeight,
}

/// The channel to the context and to the actor that saves it.
#[derive(Clone, Debug, PartialEq, Eq)]
pub struct TaskManagerChannel {
    ctx: ShieldedContext,
    action: Vec<Action>,
}

impl TaskManager {
    /// Creates the channel that owns `ctx` and the actor that saves it.
    pub fn new(ctx: ShieldedContext) -> (r: (TaskManagerChannel, TaskManager))
        requires
            ctx.wf(),
        ensures
            r.0.wf(),
            r.0.context() == ctx@,
            r.0.requests() == Seq::<Action>::empty(),
            r.1.latest_height == BlockHeight(0),
    {
        (
            TaskManagerChannel { ctx, action: Vec::new() },
            TaskManager { latest_height: BlockHeight(0) },
        )
    }

    /// Takes up one request, or the news that the channel is closed.
    pub fn step(&mut self, action: Option<Action>) -> (r: Step)
        ensures
            r == match action {
                Some(Action::Data(height)) => Step::Save(height),
                _ => Step::Stop,
            },
            final(self).latest_height == match action {
                Some(Action::Data(height)) => height,
                _ => old(self).latest_height,
            },
    {
        match action {
            Some(Action::Data(height)) => {
                self.latest_height = height;
                Step::Save(height)
            },
            _ => Step::Stop,
        }
    }

    /// Takes up the requests of a channel that was closed after them, one at
    /// a time and in their order, until one says to stop. Returns the heights
    /// to save at, in order.
    pub fn run(&mut self, actions: &Vec<Action>) -> (saves: Vec<BlockHeight>)
        ensures
            saves@ == spec_saves(actions@),
            final(self).latest_height == spec_latest_height(old(self).latest_height, actions@),
    {
        let mut saves: Vec<BlockHeight> = Vec::new();
        let mut i: usize = 0;
        assert(actions@.skip(0) =~= actions@);
        while i < actions.len()
            invariant
                i <= actions@.len(),
                spec_saves(actions@) == saves@ + spec_saves(actions@.skip(i as int)),
                self.latest_height == if saves@.len() == 0 {
                    old(self).latest_height
                } else {
                    saves@.last()
                },
            decreases actions@.len() - i,
        {
            let ghost rest = actions@.skip(i as int);
            assert(rest[0] == actions@[i as int]);
            assert(rest.drop_first() =~= actions@.skip(i + 1));
            match self.step(Some(actions[i])) {
                Step::Stop => {
                    assert(spec_saves(rest) =~= Seq::<BlockHeight>::empty());
                    assert(saves@ + Seq::<BlockHeight>::empty() =~= saves@);
                    return saves;
                },
                Step::Save(height) => {
                    assert(saves@.push(height) + spec_saves(rest.drop_first()) =~= saves@ + (
                    seq![height] + spec_saves(rest.drop_first())));
                    saves.push(height);
                },
            }
            i += 1;
        }
        assert(saves@ + Seq::<BlockHeight>::empty() =~= saves@);
        saves
    }
}

impl TaskManagerChannel {
    /// The state of the context that the channel owns.
    pub closed spec fn context(&self) -> ContextView {
        self.ctx@
    }

    /// The requests that were made and not yet handed to the actor, in the
    /// order in which they were made.
    pub closed spec fn requests(&self) -> Seq<Action> {
        self.action@
    }

    /// The context is in order.
    pub closed spec fn wf(&self) -> bool {
        self.ctx.wf()
    }

    /// The context that the channel owns.
    pub fn ctx(&self) -> (r: &ShieldedContext)
        requires
            self.wf(),
        ensures
            r.wf(),
            r@ == self.context(),
    {
        &self.ctx
    }

    /// Tells the actor that no more work will come.
    pub fn complete(&mut self)
        ensures
            final(self).requests() == old(self).requests().push(Action::Complete),
            final(self).context() == old(self).context(),
            final(self).wf() == old(self).wf(),
    {
        self.action.push(Action::Complete);
    }

    /// Asks the actor to save the context.
    pub fn save(&mut self, latest_height: BlockHeight)
        ensures
            final(self).requests() == old(self).requests().push(Action::Data(latest_height)),
            final(self).context() == old(self).context(),
            final(self).wf() == old(self).wf(),
    {
        self.action.push(Action::Data(latest_height));
    }

    /// Hands the requests that were made to the actor, in their order.
    pub fn take_requests(&mut self) -> (r: Vec<Action>)
        ensures
            r@ == old(self).requests(),
            final(self).requests() == Seq::<Action>::empty(),
            final(self).context() == old(self).context(),
            final(self).wf() == old(self).wf(),
    {
        let mut taken: Vec<Action> = Vec::new();
        std::mem::swap(&mut taken, &mut self.action);
        taken
    }

    /// Adds the commitments of a payload to the tree of the context. A
    /// failure tells the actor to stop.
    pub fn update_witness_map(&mut self, indexed_tx: IndexedTx, stx: &Transaction) -> (r: Result<
        (),
        Error,
    >)
        requires
            old(self).wf(),
        ensures
            final(self).wf(),
            (final(self).context(), r) == spec_update_witness_map(
                old(self).context(),
                indexed_tx,
                stx.commitments@,
            ),
            final(self).requests() == if r.is_err() {
                old(self).requests().push(Action::Complete)
            } else {
                old(self).requests()
            },
    {
        let res = self.ctx.update_witness_map(indexed_tx, stx);
        if res.is_err() {
            self.complete()
        }
        res
    }

    /// Scans a payload for one viewing key. A failure tells the actor to
    /// stop.
    pub fn scan_tx(
        &mut self,
        indexed_tx: IndexedTx,
        stx: &Transaction,
        vk: &ViewingKey,
        decrypted: &Vec<Option<DecryptedNote>>,
    ) -> (r: Result<(), Error>)
        requires
            old(self).wf(),
        ensures
            final(self).wf(),
            (final(self).context(), r) == spec_scan_tx(
                old(self).context(),
                indexed_tx,
                *stx,
                *vk,
                decrypted@,
            ),
            final(self).requests() == if r.is_err() {
                old(self).requests().push(Action::Complete)
            } else {
                old(self).requests()
            },
    {
        let res = self.ctx.scan_tx(indexed_tx, stx, vk, decrypted);
        if res.is_err() {
            self.complete();
        }
        res
    }

    /// Scans one entry for every viewing key that is behind it. A failure
    /// tells the actor to stop.
    pub fn scan_entry(
        &mut self,
        indexed_tx: IndexedTx,
        stx: &Transaction,
        decryptions: &Vec<TrialDecryption>,
    ) -> (r: Result<(), Error>)
        requires
            old(self).wf(),
        ensures
            final(self).wf(),
            (final(self).context(), r) == spec_scan_entry(
                old(self).context(),
                indexed_tx,
                *stx,
                decryptions@,
            ),
            final(self).requests() == if r.is_err() {
                old(self).requests().push(Action::Complete)
            } else {
                old(self).requests()
            },
    {
        let res = self.ctx.scan_entry(indexed_tx, stx, decryptions);
        if res.is_err() {
            self.complete();
        }
        res
    }

    /// Takes the checkpoints out of the context, which is left with none, so
    /// that the caller can go through them while others use the context.
    pub fn get_vk_heights(&mut self) -> (r: Vec<Checkpoint>)
        requires
            old(self).wf(),
        ensures
            final(self).wf(),
            r@ == old(self).context().vk_heights,
            distinct_keys(r@),
            final(self).context() == (ContextView {
                vk_heights: Seq::empty(),
                ..old(self).context()
            }),
            final(self).requests() == old(self).requests(),
    {
        self.ctx.get_vk_heights()
    }

    /// Puts the checkpoints back into the context.
    pub fn set_vk_heights(&mut self, vk_heights: Vec<Checkpoint>)
        requires
            old(self).wf(),
            distinct_keys(vk_heights@),
        ensures
            final(self).wf(),
            final(self).context() == (ContextView {
                vk_heights: vk_heights@,
                ..old(self).context()
            }),
            final(self).requests() == old(self).requests(),
    {
        let _ = self.ctx.set_vk_heights(vk_heights);
    }
}

} // verus!
