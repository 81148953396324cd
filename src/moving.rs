use vstd::prelude::*;

verus! {

/// The most ids that one add or remove request may carry.
pub const BATCH_LIMIT: usize = 100;

/// The two halves of a move: adding to the month's playlist, then removing
/// from the source playlist.
#[derive(Clone, Copy, Debug, PartialEq, Eq, Structural)]
pub enum MovePhase {
    Add,
    Remove,
}

/// Where a move stands.
#[derive(Clone, Copy, Debug, PartialEq, Eq, Structural)]
pub enum MoveStage {
    /// The ids from this position on are still to be added.
    Adding(usize),
    /// All ids were added; those from this position on are still to be
    /// removed from the source.
    Removing(usize),
    /// All ids were added and removed.
    Done,
    /// A request of this phase failed for good; nothing more is sent.
    Failed(MovePhase),
}

/// The request to make next, or the end of the move.
#[derive(Clone, Copy, Debug, PartialEq, Eq, Structural)]
pub enum MoveAction {
    /// Add the ids in positions `start..end` to the month's playlist.
    Add(usize, usize),
    /// Remove every occurrence of the ids in positions `start..end` from
    /// the source playlist.
    Remove(usize, usize),
    Finished,
    Failed(MovePhase),
}

/// Where the batch that starts at `start` ends.
pub open spec fn batch_end(len: nat, size: nat, start: nat) -> nat {
    if size >= len - start {
        len
    } else {
        start + size
    }
}

/// The stage a move of `len` ids starts in.
pub open spec fn first_stage(len: nat) -> MoveStage {
    if len == 0 {
        MoveStage::Done
    } else {
        MoveStage::Adding(0)
    }
}

/// Whether a stage still has a request to make.
pub open spec fn is_active(stage: MoveStage) -> bool {
    stage is Adding || stage is Removing
}

pub open spec fn action_of(len: nat, size: nat, stage: MoveStage) -> MoveAction {
    match stage {
        MoveStage::Adding(s) => MoveAction::Add(s, batch_end(len, size, s as nat) as usize),
        MoveStage::Removing(s) => MoveAction::Remove(s, batch_end(len, size, s as nat) as usize),
        MoveStage::Done => MoveAction::Finished,
        MoveStage::Failed(p) => MoveAction::Failed(p),
    }
}

/// The stage after the request of `stage` succeeded (`ok`) or failed for
/// good. The removal starts only once every id was added.
pub open spec fn after_outcome(len: nat, size: nat, stage: MoveStage, ok: bool) -> MoveStage {
    match stage {
        MoveStage::Adding(s) => if !ok {
            MoveStage::Failed(MovePhase::Add)
        } else if batch_end(len, size, s as nat) == len {
            MoveStage::Removing(0)
        } else {
            MoveStage::Adding(batch_end(len, size, s as nat) as usize)
        },
        MoveStage::Removing(s) => if !ok {
            MoveStage::Failed(MovePhase::Remove)
        } else if batch_end(len, size, s as nat) == len {
            MoveStage::Done
        } else {
            MoveStage::Removing(batch_end(len, size, s as nat) as usize)
        },
        _ => stage,
    }
}

/// The stage in which a move that starts in `stage` stops, when its
/// requests have the outcomes `outcomes` in turn.
pub open spec fn run_end(len: nat, size: nat, stage: MoveStage, outcomes: Seq<bool>) -> MoveStage
    decreases outcomes.len(),
{
    if outcomes.len() == 0 || !is_active(stage) {
        stage
    } else {
        run_end(len, size, after_outcome(len, size, stage, outcomes[0]), outcomes.drop_first())
    }
}

/// The requests made on the way.
pub open spec fn requests_made(len: nat, size: nat, stage: MoveStage, outcomes: Seq<bool>) -> Seq<
    MoveAction,
>
    decreases outcomes.len(),
{
    if outcomes.len() == 0 || !is_active(stage) {
        Seq::empty()
    } else {
        seq![action_of(len, size, stage)] + requests_made(
            len,
            size,
            after_outcome(len, size, stage, outcomes[0]),
            outcomes.drop_first(),
        )
    }
}

/// The ids that reached the month's playlist on the way, request by
/// request.
pub open spec fn added_items(ids: Seq<String>, size: nat, stage: MoveStage, outcomes: Seq<bool>) -> Seq<
    String,
>
    decreases outcomes.len(),
{
    if outcomes.len() == 0 || !is_active(stage) {
        Seq::empty()
    } else {
        let now = match stage {
            MoveStage::Adding(s) => if outcomes[0] {
                ids.subrange(s as int, batch_end(ids.len(), size, s as nat) as int)
            } else {
                Seq::empty()
            },
            _ => Seq::empty(),
        };
        now + added_items(
            ids,
            size,
            after_outcome(ids.len(), size, stage, outcomes[0]),
            outcomes.drop_first(),
        )
    }
}

/// The ids taken out of the source playlist on the way, request by
/// request.
pub open spec fn removed_items(ids: Seq<String>, size: nat, stage: MoveStage, outcomes: Seq<bool>) -> Seq<
    String,
>
    decreases outcomes.len(),
{
    if outcomes.len() == 0 || !is_active(stage) {
        Seq::empty()
    } else {
        let now = match stage {
            MoveStage::Removing(s) => if outcomes[0] {
                ids.subrange(s as int, batch_end(ids.len(), size, s as nat) as int)
            } else {
                Seq::empty()
            },
            _ => Seq::empty(),
        };
        now + removed_items(
            ids,
            size,
            after_outcome(ids.len(), size, stage, outcomes[0]),
            outcomes.drop_first(),
        )
    }
}

/// The move of one month's ids: first every id is added to the month's
/// playlist, batch by batch, then every id is removed from the source. The
/// caller makes each request that `next_action` names, each under retry,
/// and reports whether it succeeded to `record`.
pub struct MoveEngine {
    ids: Vec<String>,
    batch_size: usize,
    stage: MoveStage,
}

impl MoveEngine {
    pub closed spec fn ids(self) -> Seq<String> {
        self.ids@
    }

    pub closed spec fn batch_size(self) -> nat {
        self.batch_size as nat
    }

    pub closed spec fn stage(self) -> MoveStage {
        self.stage
    }

    pub closed spec fn wf(self) -> bool {
        &&& self.batch_size > 0
        &&& match self.stage {
            MoveStage::Adding(s) => s < self.ids@.len(),
            MoveStage::Removing(s) => s < self.ids@.len(),
            _ => true,
        }
    }

    /// A move of `ids`, in requests of at most `batch_size` ids.
    pub fn new(ids: Vec<String>, batch_size: usize) -> (r: MoveEngine)
        requires
            batch_size > 0,
        ensures
            r.wf(),
            r.ids() == ids@,
            r.batch_size() == batch_size,
            r.stage() == first_stage(ids@.len()),
    {
        let stage = if ids.len() == 0 {
            MoveStage::Done
        } else {
            MoveStage::Adding(0)
        };
        MoveEngine { ids, batch_size, stage }
    }

    /// The ids being moved, in their order.
    pub fn items(&self) -> (r: &Vec<String>)
        ensures
            r@ == self.ids(),
    {
        &self.ids
    }

    /// A copy of the ids in positions `start..end`.
    pub fn batch(&self, start: usize, end: usize) -> (r: Vec<String>)
        requires
            start <= end <= self.ids().len(),
        ensures
            r@ == self.ids().subrange(start as int, end as int),
    {
        let mut r: Vec<String> = Vec::new();
        let mut i: usize = start;
        while i < end
            invariant
                start <= i <= end <= self.ids@.len(),
                r@ == self.ids@.subrange(start as int, i as int),
            decreases end - i,
        {
            r.push(self.ids[i].clone());
            i = i + 1;
            assert(r@ =~= self.ids@.subrange(start as int, i as int));
        }
        r
    }

    pub fn stage_now(&self) -> (r: MoveStage)
        ensures
            r == self.stage(),
    {
        self.stage
    }

    fn batch_end(&self, start: usize) -> (r: usize)
        requires
            start <= self.ids@.len(),
        ensures
            r == batch_end(self.ids@.len(), self.batch_size as nat, start as nat),
    {
        if self.batch_size >= self.ids.len() - start {
            self.ids.len()
        } else {
            start + self.batch_size
        }
    }

    /// The request to make next.
    pub fn next_action(&self) -> (r: MoveAction)
        requires
            self.wf(),
        ensures
            r == action_of(self.ids().len(), self.batch_size(), self.stage()),
    {
        match self.stage {
            MoveStage::Adding(s) => MoveAction::Add(s, self.batch_end(s)),
            MoveStage::Removing(s) => MoveAction::Remove(s, self.batch_end(s)),
            MoveStage::Done => MoveAction::Finished,
            MoveStage::Failed(p) => MoveAction::Failed(p),
        }
    }

    /// Takes the outcome of the request that `next_action` named: whether
    /// it succeeded, retries included.
    pub fn record(&mut self, succeeded: bool)
        requires
            old(self).wf(),
        ensures
            final(self).wf(),
            final(self).ids() == old(self).ids(),
            final(self).batch_size() == old(self).batch_size(),
            final(self).stage() == after_outcome(
                old(self).ids().len(),
                old(self).batch_size(),
                old(self).stage(),
                succeeded,
            ),
    {
        match self.stage {
            MoveStage::Adding(s) => {
                if !succeeded {
                    self.stage = MoveStage::Failed(MovePhase::Add);
                } else {
                    let e = self.batch_end(s);
                    if e == self.ids.len() {
                        self.stage = MoveStage::Removing(0);
                    } else {
                        self.stage = MoveStage::Adding(e);
                    }
                }
            },
            MoveStage::Removing(s) => {
                if !succeeded {
                    self.stage = MoveStage::Failed(MovePhase::Remove);
                } else {
                    let e = self.batch_end(s);
                    if e == self.ids.len() {
                        self.stage = MoveStage::Done;
                    } else {
                        self.stage = MoveStage::Removing(e);
                    }
                }
            },
            _ => {},
        }
    }
}

proof fn lemma_removal_never_fails_add(len: nat, size: nat, stage: MoveStage, outcomes: Seq<bool>)
    requires
        stage is Removing || stage is Done || stage == MoveStage::Failed(MovePhase::Remove),
    ensures
        run_end(len, size, stage, outcomes) != MoveStage::Failed(MovePhase::Add),
    decreases outcomes.len(),
{
    if outcomes.len() > 0 && is_active(stage) {
        lemma_removal_never_fails_add(
            len,
            size,
            after_outcome(len, size, stage, outcomes[0]),
            outcomes.drop_first(),
        );
    }
}

proof fn lemma_add_failure_from(len: nat, size: nat, stage: MoveStage, outcomes: Seq<bool>)
    requires
        stage is Adding || stage == MoveStage::Failed(MovePhase::Add),
        run_end(len, size, stage, outcomes) == MoveStage::Failed(MovePhase::Add),
    ensures
        forall|i: int|
            0 <= i < requests_made(len, size, stage, outcomes).len() ==> #[trigger] requests_made(
                len,
                size,
                stage,
                outcomes,
            )[i] is Add,
    decreases outcomes.len(),
{
    if outcomes.len() > 0 && is_active(stage) {
        let next = after_outcome(len, size, stage, outcomes[0]);
        if next is Removing || next is Done {
            lemma_removal_never_fails_add(len, size, next, outcomes.drop_first());
        } else {
            lemma_add_failure_from(len, size, next, outcomes.drop_first());
        }
        let rest = requests_made(len, size, next, outcomes.drop_first());
        assert(requests_made(len, size, stage, outcomes) == seq![action_of(len, size, stage)]
            + rest);
        assert forall|i: int|
            0 <= i < requests_made(len, size, stage, outcomes).len() implies #[trigger] requests_made(
            len,
            size,
            stage,
            outcomes,
        )[i] is Add by {
            if i > 0 {
                assert(requests_made(len, size, stage, outcomes)[i] == rest[i - 1]);
            }
        }
    }
}

/// A move whose add phase fails for good never asks for a removal: every
/// request it made was an add, so the source playlist is untouched.
pub proof fn lemma_failed_add_never_removes(ids: Seq<String>, size: nat, outcomes: Seq<bool>)
    requires
        run_end(ids.len(), size, first_stage(ids.len()), outcomes) == MoveStage::Failed(
            MovePhase::Add,
        ),
    ensures
        forall|i: int|
            0 <= i < requests_made(ids.len(), size, first_stage(ids.len()), outcomes).len()
                ==> #[trigger] requests_made(ids.len(), size, first_stage(ids.len()), outcomes)[i] is Add,
{
    lemma_add_failure_from(ids.len(), size, first_stage(ids.len()), outcomes);
}

proof fn lemma_no_additions_after_adding(ids: Seq<String>, size: nat, stage: MoveStage, outcomes: Seq<bool>)
    requires
        !(stage is Adding),
    ensures
        added_items(ids, size, stage, outcomes) == Seq::<String>::empty(),
    decreases outcomes.len(),
{
    if outcomes.len() > 0 && is_active(stage) {
        let next = after_outcome(ids.len(), size, stage, outcomes[0]);
        lemma_no_additions_after_adding(ids, size, next, outcomes.drop_first());
        assert(added_items(ids, size, stage, outcomes) =~= Seq::<String>::empty());
    }
}

proof fn lemma_remove_failure_from(ids: Seq<String>, size: nat, s: usize, outcomes: Seq<bool>)
    requires
        size > 0,
        s < ids.len() <= usize::MAX,
        run_end(ids.len(), size, MoveStage::Adding(s), outcomes) == MoveStage::Failed(
            MovePhase::Remove,
        ),
    ensures
        added_items(ids, size, MoveStage::Adding(s), outcomes) == ids.subrange(s as int, ids.len() as int),
    decreases outcomes.len(),
{
    let stage = MoveStage::Adding(s);
    assert(outcomes.len() > 0);
    let next = after_outcome(ids.len(), size, stage, outcomes[0]);
    let e = batch_end(ids.len(), size, s as nat);
    let rest = outcomes.drop_first();
    assert(run_end(ids.len(), size, stage, outcomes) == run_end(ids.len(), size, next, rest));
    if !outcomes[0] {
        assert(run_end(ids.len(), size, next, rest) == next);
    } else if next is Removing {
        lemma_no_additions_after_adding(ids, size, next, rest);
        assert(added_items(ids, size, stage, outcomes) =~= ids.subrange(s as int, ids.len() as int));
    } else {
        assert(next == MoveStage::Adding(e as usize));
        lemma_remove_failure_from(ids, size, e as usize, rest);
        assert(added_items(ids, size, stage, outcomes) == ids.subrange(s as int, e as int)
            + added_items(ids, size, next, rest));
        assert(added_items(ids, size, stage, outcomes) =~= ids.subrange(s as int, ids.len() as int));
    }
}

/// A move whose remove phase fails for good has added every id to the
/// month's playlist, in order, and keeps them there: the failure it reports
/// names the remove phase.
pub proof fn lemma_failed_remove_keeps_additions(ids: Seq<String>, size: nat, outcomes: Seq<bool>)
    requires
        size > 0,
        ids.len() <= usize::MAX,
        run_end(ids.len(), size, first_stage(ids.len()), outcomes) == MoveStage::Failed(
            MovePhase::Remove,
        ),
    ensures
        added_items(ids, size, first_stage(ids.len()), outcomes) == ids,
        action_of(
            ids.len(),
            size,
            run_end(ids.len(), size, first_stage(ids.len()), outcomes),
        ) == MoveAction::Failed(MovePhase::Remove),
{
    if ids.len() > 0 {
        lemma_remove_failure_from(ids, size, 0, outcomes);
        assert(ids.subrange(0, ids.len() as int) =~= ids);
    }
}

proof fn lemma_done_from_removing(ids: Seq<String>, size: nat, s: usize, outcomes: Seq<bool>)
    requires
        size > 0,
        s < ids.len() <= usize::MAX,
        run_end(ids.len(), size, MoveStage::Removing(s), outcomes) == MoveStage::Done,
    ensures
        removed_items(ids, size, MoveStage::Removing(s), outcomes) == ids.subrange(s as int, ids.len() as int),
        added_items(ids, size, MoveStage::Removing(s), outcomes) == Seq::<String>::empty(),
    decreases outcomes.len(),
{
    let stage = MoveStage::Removing(s);
    assert(outcomes.len() > 0);
    let next = after_outcome(ids.len(), size, stage, outcomes[0]);
    let e = batch_end(ids.len(), size, s as nat);
    let rest = outcomes.drop_first();
    lemma_no_additions_after_adding(ids, size, stage, outcomes);
    assert(run_end(ids.len(), size, stage, outcomes) == run_end(ids.len(), size, next, rest));
    if !outcomes[0] {
        assert(run_end(ids.len(), size, next, rest) == next);
    } else if next is Done {
        assert(removed_items(ids, size, next, rest) == Seq::<String>::empty());
        assert(removed_items(ids, size, stage, outcomes) =~= ids.subrange(s as int, ids.len() as int));
    } else {
        assert(next == MoveStage::Removing(e as usize));
        lemma_done_from_removing(ids, size, e as usize, rest);
        assert(removed_items(ids, size, stage, outcomes) == ids.subrange(s as int, e as int)
            + removed_items(ids, size, next, rest));
        assert(removed_items(ids, size, stage, outcomes) =~= ids.subrange(s as int, ids.len() as int));
    }
}

proof fn lemma_done_from_adding(ids: Seq<String>, size: nat, s: usize, outcomes: Seq<bool>)
    requires
        size > 0,
        s < ids.len() <= usize::MAX,
        run_end(ids.len(), size, MoveStage::Adding(s), outcomes) == MoveStage::Done,
    ensures
        added_items(ids, size, MoveStage::Adding(s), outcomes) == ids.subrange(s as int, ids.len() as int),
        removed_items(ids, size, MoveStage::Adding(s), outcomes) == ids,
    decreases outcomes.len(),
{
    let stage = MoveStage::Adding(s);
    assert(outcomes.len() > 0);
    let next = after_outcome(ids.len(), size, stage, outcomes[0]);
    let e = batch_end(ids.len(), size, s as nat);
    let rest = outcomes.drop_first();
    assert(run_end(ids.len(), size, stage, outcomes) == run_end(ids.len(), size, next, rest));
    if !outcomes[0] {
        assert(run_end(ids.len(), size, next, rest) == next);
    } else if next is Removing {
        lemma_done_from_removing(ids, size, 0, rest);
        assert(ids.subrange(0, ids.len() as int) =~= ids);
        assert(removed_items(ids, size, stage, outcomes) =~= ids);
        assert(added_items(ids, size, stage, outcomes) =~= ids.subrange(s as int, ids.len() as int));
    } else {
        assert(next == MoveStage::Adding(e as usize));
        lemma_done_from_adding(ids, size, e as usize, rest);
        assert(removed_items(ids, size, stage, outcomes) =~= ids);
        assert(added_items(ids, size, stage, outcomes) == ids.subrange(s as int, e as int)
            + added_items(ids, size, next, rest));
        assert(added_items(ids, size, stage, outcomes) =~= ids.subrange(s as int, ids.len() as int));
    }
}

/// A move that finishes has added every id to the month's playlist and
/// removed every id from the source, each in order.
pub proof fn lemma_finished_move_moves_everything(ids: Seq<String>, size: nat, outcomes: Seq<bool>)
    requires
        size > 0,
        ids.len() <= usize::MAX,
        run_end(ids.len(), size, first_stage(ids.len()), outcomes) == MoveStage::Done,
    ensures
        added_items(ids, size, first_stage(ids.len()), outcomes) == ids,
        removed_items(ids, size, first_stage(ids.len()), outcomes) == ids,
{
    if ids.len() > 0 {
        lemma_done_from_adding(ids, size, 0, outcomes);
        assert(ids.subrange(0, ids.len() as int) =~= ids);
    } else {
        assert(ids =~= Seq::<String>::empty());
    }
}

} // verus!
