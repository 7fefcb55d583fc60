//! The loop of a timed RPC run: which block comes next, what is done with it, and the counts.

use vstd::prelude::*;

use crate::blocks::{fixture_file, fixture_file_text};
use crate::progress::{progress_due, reports_after};
use crate::text::decimal;

verus! {

/// What became of a block.
#[derive(Clone, Copy, Debug, PartialEq, Eq, Structural)]
pub enum BlockOutcome {
    /// Its fixture was there already.
    Skipped,
    /// It was fetched and written.
    Succeeded,
    /// Fetching or writing it failed.
    Failed,
}

/// How far a run has come.
#[verifier::ext_equal]
pub struct RunView {
    /// The blocks of the run, in order.
    pub blocks: Seq<u64>,
    /// How many blocks are done.
    pub position: nat,
    /// How many of them succeeded.
    pub ok: nat,
    /// How many of them failed.
    pub errors: nat,
    /// How many of them were skipped.
    pub skipped: nat,
}

impl RunView {
    /// Every block that is done is counted once.
    pub open spec fn wf(self) -> bool {
        &&& self.position <= self.blocks.len() <= usize::MAX
        &&& self.ok + self.errors + self.skipped == self.position
    }

    /// The run after one more block.
    pub open spec fn step(self, outcome: BlockOutcome) -> RunView {
        match outcome {
            BlockOutcome::Skipped => RunView {
                position: self.position + 1,
                skipped: self.skipped + 1,
                ..self
            },
            BlockOutcome::Succeeded => RunView {
                position: self.position + 1,
                ok: self.ok + 1,
                ..self
            },
            BlockOutcome::Failed => RunView {
                position: self.position + 1,
                errors: self.errors + 1,
                ..self
            },
        }
    }

    /// Whether all blocks are done.
    pub open spec fn is_done(self) -> bool {
        self.position == self.blocks.len()
    }

    /// The block that comes next.
    pub open spec fn next_block(self) -> u64 {
        self.blocks[self.position as int]
    }

    /// The run once it is known whether the next block's fixture file exists: if so, the block is
    /// skipped.
    pub open spec fn checked(self, exists: bool) -> RunView {
        if exists {
            self.step(BlockOutcome::Skipped)
        } else {
            self
        }
    }

    /// The run after its next block was processed.
    pub open spec fn finished(self, success: bool) -> RunView {
        self.step(
            if success {
                BlockOutcome::Succeeded
            } else {
                BlockOutcome::Failed
            },
        )
    }

    /// The run after some more blocks.
    pub open spec fn after(self, outcomes: Seq<BlockOutcome>) -> RunView
        decreases outcomes.len(),
    {
        if outcomes.len() == 0 {
            self
        } else {
            self.after(outcomes.drop_last()).step(outcomes.last())
        }
    }

    /// A run that has done no block yet.
    pub open spec fn start(blocks: Seq<u64>) -> RunView {
        RunView { blocks, position: 0, ok: 0, errors: 0, skipped: 0 }
    }
}

/// What the run does next.
#[derive(Debug)]
pub enum RunAction {
    /// See whether this block's fixture file exists.
    CheckFile { block: u64, file: String },
    /// All blocks are done.
    Done,
}

/// What is done with a block once it is known whether its fixture file exists.
#[derive(Clone, Copy, Debug, PartialEq, Eq, Structural)]
pub enum AfterCheck {
    /// The block is skipped. The first five skips and then every fiftieth are reported.
    Skip(Option<SkipReport>),
    /// The block is fetched and written.
    Process { block: u64 },
}

/// Whether the skip that brings the number of skips to `skipped` is reported.
pub open spec fn skip_is_reported(skipped: nat) -> bool {
    skipped <= 5 || skipped % 50 == 0
}

/// The report that a block is skipped.
#[derive(Clone, Copy, Debug, PartialEq, Eq, Structural)]
pub struct SkipReport {
    pub block: u64,
    pub position: usize,
    pub total: usize,
}

/// The report of how far the run has come.
#[derive(Clone, Copy, Debug, PartialEq, Eq, Structural)]
pub struct RunReport {
    pub position: usize,
    pub total: usize,
    pub ok: usize,
    pub errors: usize,
    pub skipped: usize,
    /// The blocks that succeeded or failed.
    pub processed: usize,
    /// The blocks that are not done yet.
    pub remaining: usize,
}

/// A run over some blocks.
pub struct RpcRun {
    blocks: Vec<u64>,
    position: usize,
    ok: usize,
    errors: usize,
    skipped: usize,
}

impl View for RpcRun {
    type V = RunView;

    closed spec fn view(&self) -> RunView {
        RunView {
            blocks: self.blocks@,
            position: self.position as nat,
            ok: self.ok as nat,
            errors: self.errors as nat,
            skipped: self.skipped as nat,
        }
    }
}

impl RpcRun {
    /// A run that has done no block yet.
    pub fn new(blocks: Vec<u64>) -> (run: RpcRun)
        ensures
            run@ == RunView::start(blocks@),
            run@.wf(),
    {
        assert(blocks@.len() == blocks.len());
        RpcRun { blocks, position: 0, ok: 0, errors: 0, skipped: 0 }
    }

    /// What the run does next.
    pub fn next_action(&self) -> (action: RunAction)
        requires
            self@.wf(),
        ensures
            match action {
                RunAction::Done => self@.is_done(),
                RunAction::CheckFile { block, file } => !self@.is_done() && block
                    == self@.next_block() && file@ == fixture_file_text(block),
            },
    {
        if self.position == self.blocks.len() {
            RunAction::Done
        } else {
            let block: u64 = self.blocks[self.position];
            RunAction::CheckFile { block, file: fixture_file(block) }
        }
    }

    /// Takes note of whether the next block's fixture file exists: the block is skipped if it does,
    /// and else is to be processed.
    pub fn checked(&mut self, exists: bool) -> (next: AfterCheck)
        requires
            old(self)@.wf(),
            !old(self)@.is_done(),
        ensures
            final(self)@.wf(),
            final(self)@ == old(self)@.checked(exists),
            match next {
                AfterCheck::Skip(report) => exists && (match report {
                    Some(report) => skip_is_reported(final(self)@.skipped) && report.block
                        == old(self)@.next_block() && report.position == final(self)@.position
                        && report.total == old(self)@.blocks.len(),
                    None => !skip_is_reported(final(self)@.skipped),
                }),
                AfterCheck::Process { block } => !exists && block == old(self)@.next_block(),
            },
    {
        let block: u64 = self.blocks[self.position];
        if !exists {
            return AfterCheck::Process { block };
        }
        self.position = self.position + 1;
        self.skipped = self.skipped + 1;
        if self.skipped <= 5 || self.skipped % 50 == 0 {
            AfterCheck::Skip(
                Some(SkipReport { block, position: self.position, total: self.blocks.len() }),
            )
        } else {
            AfterCheck::Skip(None)
        }
    }

    /// Records that the next block was processed. A report is due after every ten blocks and at the
    /// end.
    pub fn finish(&mut self, success: bool) -> (report: Option<RunReport>)
        requires
            old(self)@.wf(),
            !old(self)@.is_done(),
        ensures
            final(self)@.wf(),
            final(self)@ == old(self)@.finished(success),
            report is Some <==> reports_after(
                final(self)@.position,
                final(self)@.blocks.len(),
                10,
            ),
            report matches Some(report) ==> report.shows(final(self)@),
    {
        self.position = self.position + 1;
        if success {
            self.ok = self.ok + 1;
        } else {
            self.errors = self.errors + 1;
        }
        if progress_due(self.position, self.blocks.len(), 10) {
            Some(self.report())
        } else {
            None
        }
    }

    /// How far the run has come.
    pub fn report(&self) -> (report: RunReport)
        requires
            self@.wf(),
        ensures
            report.shows(self@),
    {
        RunReport {
            position: self.position,
            total: self.blocks.len(),
            ok: self.ok,
            errors: self.errors,
            skipped: self.skipped,
            processed: self.ok + self.errors,
            remaining: self.blocks.len() - self.position,
        }
    }
}

impl RunReport {
    /// Whether this is the report of a run.
    pub open spec fn shows(self, run: RunView) -> bool {
        &&& self.position == run.position
        &&& self.total == run.blocks.len()
        &&& self.ok == run.ok
        &&& self.errors == run.errors
        &&& self.skipped == run.skipped
        &&& self.processed == run.ok + run.errors
        &&& self.remaining == run.blocks.len() - run.position
    }
}

/// How many of some outcomes are `outcome`.
pub open spec fn outcome_count(outcomes: Seq<BlockOutcome>, outcome: BlockOutcome) -> nat
    decreases outcomes.len(),
{
    if outcomes.len() == 0 {
        0
    } else {
        outcome_count(outcomes.drop_last(), outcome) + if outcomes.last() == outcome {
            1nat
        } else {
            0nat
        }
    }
}

/// The counts of a run are those of what became of its blocks, whatever that was, and add up to the
/// number of blocks that are done.
pub proof fn counts_are_of_the_outcomes(blocks: Seq<u64>, outcomes: Seq<BlockOutcome>)
    ensures
        ({
            let run = RunView::start(blocks).after(outcomes);
            &&& run.blocks == blocks
            &&& run.position == outcomes.len()
            &&& run.ok == outcome_count(outcomes, BlockOutcome::Succeeded)
            &&& run.errors == outcome_count(outcomes, BlockOutcome::Failed)
            &&& run.skipped == outcome_count(outcomes, BlockOutcome::Skipped)
            &&& run.ok + run.errors + run.skipped == outcomes.len()
        }),
    decreases outcomes.len(),
{
    if outcomes.len() > 0 {
        counts_are_of_the_outcomes(blocks, outcomes.drop_last());
    }
}

/// A new run has its blocks before it and has done none of them.
pub proof fn runs_begin_with_nothing_done(blocks: Vec<u64>, run: RpcRun)
    requires
        call_ensures(RpcRun::new, (blocks,), run),
    ensures
        run@.blocks == blocks@,
        run@.position == 0 && run@.ok == 0 && run@.errors == 0 && run@.skipped == 0,
{
}

/// As long as not all blocks are done, a run asks for the fixture file of the first one that is not.
pub proof fn runs_take_their_blocks_in_order(run: RpcRun, action: RunAction)
    requires
        call_ensures(RpcRun::next_action, (&run,), action),
        run@.wf(),
    ensures
        run@.position == run@.blocks.len() ==> action is Done,
        run@.position < run@.blocks.len() ==> (action matches RunAction::CheckFile { block, file }
            && block == run@.blocks[run@.position as int] && file@ == "rpc_block_"@ + decimal(
            block as nat,
        ) + ".json"@),
{
}

/// A block whose fixture file exists is skipped and counted so; any other is to be processed, and
/// nothing is counted yet. The first five skips are reported, and then every fiftieth.
pub proof fn blocks_are_skipped_exactly_if_they_are_there(
    run: &mut RpcRun,
    exists: bool,
    next: AfterCheck,
)
    requires
        call_ensures(RpcRun::checked, (run, exists), next),
    ensures
        ({
            let before = old(run)@;
            let after = final(run)@;
            let block = before.blocks[before.position as int];
            &&& after.blocks == before.blocks
            &&& after.ok == before.ok && after.errors == before.errors
            &&& exists ==> {
                &&& after.position == before.position + 1 && after.skipped == before.skipped + 1
                &&& next matches AfterCheck::Skip(report) && (report is Some <==> after.skipped <= 5
                    || after.skipped % 50 == 0) && (report matches Some(r) ==> r.block == block
                    && r.position == after.position && r.total == after.blocks.len())
            }
            &&& !exists ==> {
                &&& after.position == before.position && after.skipped == before.skipped
                &&& next matches AfterCheck::Process { block: b } && b == block
            }
        }),
{
}

/// A block that is processed is counted as a success or as an error. A report comes after every ten
/// blocks and at the end, and it gives the counts.
pub proof fn processed_blocks_are_counted_as_they_end(
    run: &mut RpcRun,
    success: bool,
    report: Option<RunReport>,
)
    requires
        call_ensures(RpcRun::finish, (run, success), report),
    ensures
        ({
            let before = old(run)@;
            let after = final(run)@;
            &&& after.blocks == before.blocks
            &&& after.position == before.position + 1
            &&& after.skipped == before.skipped
            &&& success ==> after.ok == before.ok + 1 && after.errors == before.errors
            &&& !success ==> after.errors == before.errors + 1 && after.ok == before.ok
            &&& report is Some <==> after.position % 10 == 0 || after.position == after.blocks.len()
            &&& report matches Some(r) ==> r.position == after.position && r.total
                == after.blocks.len() && r.ok == after.ok && r.errors == after.errors && r.skipped
                == after.skipped && r.processed == after.ok + after.errors && r.remaining
                == after.blocks.len() - after.position
        }),
{
}

/// The report of a run gives its counts, how many blocks were processed and how many are left.
pub proof fn runs_report_their_counts(run: RpcRun, report: RunReport)
    requires
        call_ensures(RpcRun::report, (&run,), report),
    ensures
        report.position == run@.position && report.total == run@.blocks.len(),
        report.ok == run@.ok && report.errors == run@.errors && report.skipped == run@.skipped,
        report.processed == run@.ok + run@.errors,
        report.remaining == run@.blocks.len() - run@.position,
{
}

} // verus!
