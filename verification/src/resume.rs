//! What timed RPC runs leave on disk, and that they can be resumed.

use vstd::prelude::*;

use crate::blocks::{fixture_file_text, fixture_files_are_distinct};
use crate::metrics::{
    header_is_written_once, metrics_columns, opened, output_for, BlockMetrics, OutputView,
};
use crate::run::RunView;
use crate::text::{decimal, joined};

verus! {

/// What a run reads and writes.
#[verifier::ext_equal]
pub struct Disk {
    /// The contents of the files in the output folder, by their names.
    pub files: Map<Seq<char>, Seq<u8>>,
    /// The text of the metrics file, which is empty where there is none.
    pub metrics: Seq<char>,
}

/// What a run is told to do.
pub struct Settings {
    pub blocks: Seq<u64>,
    /// Whether fixtures are not saved.
    pub no_save: bool,
    /// Whether there is a metrics file.
    pub keep_metrics: bool,
}

/// How processing a block would end.
pub enum Attempt {
    /// All is fetched and written: the fixture with this JSON, of which this was measured.
    Done { json: Seq<u8>, metrics: BlockMetrics },
    /// A request fails.
    NotFetched,
    /// The fixture cannot be written. A part of it may stay behind.
    NotSaved { json: Seq<u8>, metrics: BlockMetrics, part: Option<Seq<u8>> },
    /// The fixture is written, if fixtures are saved, but the row cannot be. A part of it may stay
    /// behind.
    NoRow { json: Seq<u8>, metrics: BlockMetrics, row: Seq<char> },
}

/// Whether this was measured of the block and its fixture, which has this JSON.
pub open spec fn measured_of(block: u64, json: Seq<u8>, metrics: BlockMetrics) -> bool {
    &&& metrics.block_number == block
    &&& metrics.fixture_size == json.len()
}

impl Attempt {
    /// Whether processing a block can end in this way.
    pub open spec fn fits(self, settings: Settings, block: u64) -> bool {
        match self {
            Attempt::Done { json, metrics } => measured_of(block, json, metrics),
            Attempt::NotFetched => true,
            Attempt::NotSaved { json, metrics, part } => {
                &&& !settings.no_save
                &&& measured_of(block, json, metrics)
                &&& part matches Some(part) ==> part.is_prefix_of(json)
            },
            Attempt::NoRow { json, metrics, row } => {
                &&& settings.keep_metrics
                &&& measured_of(block, json, metrics)
                &&& row.is_prefix_of(joined(metrics.fields()) + "\n"@)
            },
        }
    }

    /// What a run that saves fixtures leaves in the fixture file of the block, if it leaves one.
    pub open spec fn file_left(self) -> Option<Seq<u8>> {
        match self {
            Attempt::Done { json, .. } => Some(json),
            Attempt::NotFetched => None,
            Attempt::NotSaved { part, .. } => part,
            Attempt::NoRow { json, .. } => Some(json),
        }
    }

    /// Whether a run that saves fixtures writes the whole fixture.
    pub open spec fn saves(self) -> bool {
        self is Done || self is NoRow
    }
}

impl Disk {
    /// The disk once the metrics file is opened, if there is one.
    pub open spec fn with_metrics(self, keep_metrics: bool) -> Disk {
        if keep_metrics {
            Disk { metrics: opened(self.metrics), ..self }
        } else {
            self
        }
    }

    /// The disk with what is written for a block whose fixture has this JSON.
    pub open spec fn with_output(self, output: OutputView, json: Seq<u8>) -> Disk {
        Disk {
            files: match output.file {
                Some(file) => self.files.insert(file, json),
                None => self.files,
            },
            metrics: match output.row {
                Some(row) => self.metrics + row + "\n"@,
                None => self.metrics,
            },
        }
    }

    /// The disk after processing a block.
    pub open spec fn after_attempt(self, settings: Settings, attempt: Attempt) -> Disk {
        match attempt {
            Attempt::Done { json, metrics } => self.with_output(
                output_for(metrics, settings.no_save, settings.keep_metrics),
                json,
            ),
            Attempt::NotFetched => self,
            Attempt::NotSaved { metrics, part, .. } => match part {
                Some(part) => self.with_output(output_for(metrics, settings.no_save, false), part),
                None => self,
            },
            Attempt::NoRow { json, metrics, row } => {
                let saved = self.with_output(output_for(metrics, settings.no_save, false), json);
                Disk { metrics: saved.metrics + row, ..saved }
            },
        }
    }
}

/// A run, and the disk that it has come to, after one more block: the block is skipped if its fixture
/// file exists, and else processed.
pub open spec fn block_done(
    settings: Settings,
    run: RunView,
    disk: Disk,
    attempt: Attempt,
) -> (RunView, Disk) {
    let exists = disk.files.dom().contains(fixture_file_text(run.next_block()));
    if exists {
        (run.checked(exists), disk)
    } else {
        (
            run.checked(exists).finished(attempt is Done),
            disk.after_attempt(settings, attempt),
        )
    }
}

/// A run, and the disk that it leaves, after as many blocks as there are attempts; the attempt at a
/// block that is skipped is not made.
pub open spec fn blocks_done(settings: Settings, disk: Disk, attempts: Seq<Attempt>) -> (
    RunView,
    Disk,
)
    decreases attempts.len(),
{
    if attempts.len() == 0 {
        (RunView::start(settings.blocks), disk.with_metrics(settings.keep_metrics))
    } else {
        let before = blocks_done(settings, disk, attempts.drop_last());
        block_done(settings, before.0, before.1, attempts.last())
    }
}

/// Whether the attempts are at the first blocks of a run, and can end as they do.
pub open spec fn attempts_fit(settings: Settings, attempts: Seq<Attempt>) -> bool {
    &&& attempts.len() <= settings.blocks.len()
    &&& forall|i: int|
        0 <= i < attempts.len() ==> (#[trigger] attempts[i]).fits(settings, settings.blocks[i])
}

/// Whether a run skips its `i`th block.
pub open spec fn skipped_at(
    settings: Settings,
    disk: Disk,
    attempts: Seq<Attempt>,
    i: int,
) -> bool {
    blocks_done(settings, disk, attempts.take(i)).1.files.dom().contains(
        fixture_file_text(settings.blocks[i]),
    )
}

proof fn run_keeps_place(settings: Settings, disk: Disk, attempts: Seq<Attempt>)
    ensures
        ({
            let run = blocks_done(settings, disk, attempts).0;
            &&& run.blocks == settings.blocks
            &&& run.position == attempts.len()
            &&& run.ok + run.errors + run.skipped == run.position
        }),
    decreases attempts.len(),
{
    if attempts.len() > 0 {
        run_keeps_place(settings, disk, attempts.drop_last());
    }
}

/// One more block takes nothing away from what the disk held, and the fixture of a block that is
/// skipped or saved is there then.
proof fn attempt_adds(settings: Settings, run: RunView, disk: Disk, attempt: Attempt)
    requires
        attempt.fits(settings, run.next_block()),
    ensures
        disk.files.submap_of(block_done(settings, run, disk, attempt).1.files),
        disk.metrics.is_prefix_of(block_done(settings, run, disk, attempt).1.metrics),
        !settings.no_save && attempt.saves() ==> block_done(
            settings,
            run,
            disk,
            attempt,
        ).1.files.dom().contains(fixture_file_text(run.next_block())),
{
}

/// A run takes nothing away from what the disk held after fewer blocks.
proof fn disk_grows(settings: Settings, disk: Disk, attempts: Seq<Attempt>, i: int)
    requires
        attempts_fit(settings, attempts),
        0 <= i <= attempts.len(),
    ensures
        blocks_done(settings, disk, attempts.take(i)).1.files.submap_of(
            blocks_done(settings, disk, attempts).1.files,
        ),
        blocks_done(settings, disk, attempts.take(i)).1.metrics.is_prefix_of(
            blocks_done(settings, disk, attempts).1.metrics,
        ),
        blocks_done(settings, disk, attempts.take(i)).0.errors <= blocks_done(
            settings,
            disk,
            attempts,
        ).0.errors,
    decreases attempts.len(),
{
    if i == attempts.len() {
        assert(attempts.take(i) =~= attempts);
    } else {
        let rest = attempts.drop_last();
        assert(rest.take(i) =~= attempts.take(i));
        assert(rest =~= attempts.take(attempts.len() - 1));
        fewer_attempts_fit(settings, attempts, attempts.len() - 1);
        disk_grows(settings, disk, rest, i);
        run_keeps_place(settings, disk, rest);
        let before = blocks_done(settings, disk, rest);
        attempt_adds(settings, before.0, before.1, attempts[attempts.len() - 1]);
        let first = blocks_done(settings, disk, attempts.take(i)).1.files;
        let end = blocks_done(settings, disk, attempts).1.files;
        assert forall|file: Seq<char>| #[trigger]
            first.dom().contains(file) implies #[trigger] end.dom().contains(file) && first[file]
            == end[file] by {
            assert(before.1.files.dom().contains(file));
        }
    }
}

/// The attempts at fewer blocks of a run are at its first blocks, too.
proof fn fewer_attempts_fit(settings: Settings, attempts: Seq<Attempt>, i: int)
    requires
        attempts_fit(settings, attempts),
        0 <= i <= attempts.len(),
    ensures
        attempts_fit(settings, attempts.take(i)),
{
    assert forall|j: int| 0 <= j < i implies (#[trigger] attempts.take(i)[j]).fits(
        settings,
        settings.blocks[j],
    ) by {
        assert(attempts.take(i)[j] == attempts[j]);
    }
}

/// A run comes to its blocks one by one in good order, and goes by whether their fixture files exist
/// when it comes to them: a block whose file exists is skipped and leaves the disk as it is, any other
/// is processed.
pub proof fn blocks_are_skipped_for_their_files(
    settings: Settings,
    disk: Disk,
    attempts: Seq<Attempt>,
    i: int,
)
    requires
        settings.blocks.len() <= usize::MAX,
        attempts.len() <= settings.blocks.len(),
        0 <= i < attempts.len(),
    ensures
        ({
            let before = blocks_done(settings, disk, attempts.take(i));
            let after = blocks_done(settings, disk, attempts.take(i + 1));
            &&& before.0.wf() && !before.0.is_done() && before.0.next_block() == settings.blocks[i]
            &&& skipped_at(settings, disk, attempts, i) ==> after == (
                before.0.checked(true),
                before.1,
            )
            &&& !skipped_at(settings, disk, attempts, i) ==> after == (
                before.0.checked(false).finished(attempts[i] is Done),
                before.1.after_attempt(settings, attempts[i]),
            )
        }),
{
    assert(attempts.take(i + 1).drop_last() =~= attempts.take(i));
    run_keeps_place(settings, disk, attempts.take(i));
}

/// A request that fails leaves the disk as it is, and costs the run one error.
pub proof fn failed_request_changes_nothing(settings: Settings, run: RunView, disk: Disk)
    ensures
        block_done(settings, run, disk, Attempt::NotFetched).1 == disk,
        !disk.files.dom().contains(fixture_file_text(run.next_block())) ==> block_done(
            settings,
            run,
            disk,
            Attempt::NotFetched,
        ).0 == run.finished(false),
{
}

/// A saving run writes a row, or a part of it, only once the whole fixture is saved.
pub proof fn row_comes_after_the_fixture(
    settings: Settings,
    run: RunView,
    disk: Disk,
    attempt: Attempt,
)
    requires
        attempt.fits(settings, run.next_block()),
        !settings.no_save,
        block_done(settings, run, disk, attempt).1.metrics != disk.metrics,
    ensures
        ({
            let files = block_done(settings, run, disk, attempt).1.files;
            let file = fixture_file_text(run.next_block());
            &&& files.dom().contains(file)
            &&& match attempt {
                Attempt::Done { json, .. } => files[file] == json,
                Attempt::NoRow { json, .. } => files[file] == json,
                _ => false,
            }
        }),
{
}

/// The row of a block gives the size of the file that its fixture is saved in: in a run that saves
/// fixtures and keeps metrics, a block that is processed with success leaves both.
pub proof fn row_gives_the_size_of_the_file(
    settings: Settings,
    disk: Disk,
    attempts: Seq<Attempt>,
    i: int,
)
    requires
        attempts_fit(settings, attempts),
        !settings.no_save,
        settings.keep_metrics,
        0 <= i < attempts.len(),
        !skipped_at(settings, disk, attempts, i),
        attempts[i] is Done,
    ensures
        ({
            let before = blocks_done(settings, disk, attempts.take(i)).1;
            let after = blocks_done(settings, disk, attempts.take(i + 1)).1;
            let end = blocks_done(settings, disk, attempts).1;
            let file = fixture_file_text(settings.blocks[i]);
            let fields = attempts[i]->Done_metrics.fields();
            &&& after.metrics == before.metrics + joined(fields) + "\n"@
            &&& end.files.dom().contains(file)
            &&& end.files[file] == attempts[i]->Done_json
            &&& metrics_columns()[7] == "fixture_size_bytes"@
            &&& fields[7] == decimal(end.files[file].len())
        }),
{
    assert(attempts.take(i + 1).drop_last() =~= attempts.take(i));
    run_keeps_place(settings, disk, attempts.take(i));
    disk_grows(settings, disk, attempts, i + 1);
    let file = fixture_file_text(settings.blocks[i]);
    assert(blocks_done(settings, disk, attempts.take(i + 1)).1.files.dom().contains(file));
    assert(blocks_done(settings, disk, attempts).1.files.dom().contains(file));
}

/// A run writes nothing over: every file that was in the output folder is there afterwards with the
/// same contents, and the metrics file is only appended to.
pub proof fn nothing_is_overwritten(settings: Settings, disk: Disk, attempts: Seq<Attempt>)
    requires
        attempts_fit(settings, attempts),
    ensures
        disk.files.submap_of(blocks_done(settings, disk, attempts).1.files),
        disk.metrics.is_prefix_of(blocks_done(settings, disk, attempts).1.metrics),
{
    disk_grows(settings, disk, attempts, 0);
    assert(attempts.take(0) =~= Seq::<Attempt>::empty());
}

/// A run that is not to save fixtures leaves the output folder as it is.
pub proof fn no_fixture_is_saved_unasked(settings: Settings, disk: Disk, attempts: Seq<Attempt>)
    requires
        settings.no_save,
    ensures
        blocks_done(settings, disk, attempts).1.files == disk.files,
    decreases attempts.len(),
{
    if attempts.len() > 0 {
        no_fixture_is_saved_unasked(settings, disk, attempts.drop_last());
    }
}

/// The fixture of a block that a saving run skipped or wrote is there when the run ends.
pub proof fn fixture_is_there_afterwards(
    settings: Settings,
    disk: Disk,
    attempts: Seq<Attempt>,
    i: int,
)
    requires
        attempts_fit(settings, attempts),
        !settings.no_save,
        0 <= i < attempts.len(),
        skipped_at(settings, disk, attempts, i) || attempts[i].saves(),
    ensures
        blocks_done(settings, disk, attempts).1.files.dom().contains(
            fixture_file_text(settings.blocks[i]),
        ),
{
    let before = blocks_done(settings, disk, attempts.take(i));
    assert(attempts.take(i + 1).drop_last() =~= attempts.take(i));
    run_keeps_place(settings, disk, attempts.take(i));
    attempt_adds(settings, before.0, before.1, attempts[i]);
    disk_grows(settings, disk, attempts, i + 1);
}

/// Runs can be resumed: a later run over the same blocks, which finds at least the files that a
/// saving run left, skips every block that the first one skipped or whose fixture it wrote. It need
/// not save fixtures or keep metrics as the first one did.
pub proof fn later_run_skips_what_was_saved(
    settings: Settings,
    disk: Disk,
    attempts: Seq<Attempt>,
    later: Settings,
    later_disk: Disk,
    later_attempts: Seq<Attempt>,
    i: int,
)
    requires
        attempts_fit(settings, attempts),
        attempts_fit(later, later_attempts),
        !settings.no_save,
        later.blocks == settings.blocks,
        blocks_done(settings, disk, attempts).1.files.dom().subset_of(later_disk.files.dom()),
        0 <= i < attempts.len(),
        i < later_attempts.len(),
        skipped_at(settings, disk, attempts, i) || attempts[i].saves(),
    ensures
        skipped_at(later, later_disk, later_attempts, i),
{
    fixture_is_there_afterwards(settings, disk, attempts, i);
    fewer_attempts_fit(later, later_attempts, i);
    nothing_is_overwritten(later, later_disk, later_attempts.take(i));
}

/// A completed run is not repeated: where a saving run ended without an error, a run over the same
/// blocks on the disk that it left skips every block, whatever an attempt would bring, and leaves
/// all files and the metrics file as they are.
pub proof fn completed_run_is_not_repeated(
    settings: Settings,
    disk: Disk,
    attempts: Seq<Attempt>,
    later: Settings,
    later_attempts: Seq<Attempt>,
)
    requires
        attempts_fit(settings, attempts),
        attempts_fit(later, later_attempts),
        attempts.len() == settings.blocks.len(),
        !settings.no_save,
        later.blocks == settings.blocks,
        later.keep_metrics ==> settings.keep_metrics,
        blocks_done(settings, disk, attempts).0.errors == 0,
    ensures
        ({
            let left = blocks_done(settings, disk, attempts).1;
            let again = blocks_done(later, left, later_attempts);
            &&& forall|i: int|
                0 <= i < later_attempts.len() ==> #[trigger] skipped_at(
                    later,
                    left,
                    later_attempts,
                    i,
                )
            &&& again.0.position == later_attempts.len()
            &&& again.0.skipped == later_attempts.len()
            &&& again.0.ok == 0
            &&& again.0.errors == 0
            &&& again.1 == left
        }),
    decreases later_attempts.len(),
{
    let left = blocks_done(settings, disk, attempts).1;
    assert forall|i: int| 0 <= i < later_attempts.len() implies #[trigger] skipped_at(
        later,
        left,
        later_attempts,
        i,
    ) by {
        no_error_means_done(settings, disk, attempts, i);
        later_run_skips_what_was_saved(
            settings,
            disk,
            attempts,
            later,
            left,
            later_attempts,
            i,
        );
    }
    if later_attempts.len() == 0 {
        if later.keep_metrics {
            metrics_were_opened(settings, disk, attempts);
        }
        assert(left.with_metrics(later.keep_metrics) =~= left);
    } else {
        let n = later_attempts.len() - 1;
        let rest = later_attempts.drop_last();
        assert(rest =~= later_attempts.take(n));
        fewer_attempts_fit(later, later_attempts, n);
        completed_run_is_not_repeated(settings, disk, attempts, later, rest);
        run_keeps_place(later, left, rest);
        assert(skipped_at(later, left, later_attempts, n));
    }
}

/// In a run without an error each block was skipped or processed with success.
proof fn no_error_means_done(settings: Settings, disk: Disk, attempts: Seq<Attempt>, i: int)
    requires
        attempts_fit(settings, attempts),
        blocks_done(settings, disk, attempts).0.errors == 0,
        0 <= i < attempts.len(),
    ensures
        skipped_at(settings, disk, attempts, i) || attempts[i].saves(),
{
    assert(attempts.take(i + 1).drop_last() =~= attempts.take(i));
    run_keeps_place(settings, disk, attempts.take(i));
    disk_grows(settings, disk, attempts, i + 1);
}

/// What a run that keeps metrics leaves in the metrics file is left as it is when the file is opened
/// again.
proof fn metrics_were_opened(settings: Settings, disk: Disk, attempts: Seq<Attempt>)
    requires
        attempts_fit(settings, attempts),
        settings.keep_metrics,
    ensures
        ({
            let metrics = blocks_done(settings, disk, attempts).1.metrics;
            opened(metrics) == metrics
        }),
{
    let metrics = blocks_done(settings, disk, attempts).1.metrics;
    disk_grows(settings, disk, attempts, 0);
    assert(attempts.take(0) =~= Seq::<Attempt>::empty());
    let first = opened(disk.metrics);
    let rows = metrics.skip(first.len() as int);
    assert(metrics =~= first + rows);
    header_is_written_once(disk.metrics, rows);
}

/// A block is skipped only for its own fixture: one that was there before the run, or one that the
/// run wrote, in whole or in part, when it came to the same block earlier.
pub proof fn only_own_fixture_is_skipped(
    settings: Settings,
    disk: Disk,
    attempts: Seq<Attempt>,
    i: int,
)
    requires
        attempts_fit(settings, attempts),
        0 <= i < attempts.len(),
        skipped_at(settings, disk, attempts, i),
    ensures
        disk.files.dom().contains(fixture_file_text(settings.blocks[i])) || (!settings.no_save
            && exists|j: int|
            0 <= j < i && #[trigger] settings.blocks[j] == settings.blocks[i] && attempts[j].file_left() is Some),
{
    fewer_attempts_fit(settings, attempts, i);
    fixture_is_from_its_block(settings, disk, attempts.take(i), settings.blocks[i]);
    if !disk.files.dom().contains(fixture_file_text(settings.blocks[i])) {
        let j = choose|j: int|
            0 <= j < i && #[trigger] settings.blocks[j] == settings.blocks[i] && attempts.take(
                i,
            )[j].file_left() is Some;
        assert(attempts[j] == attempts.take(i)[j]);
    }
}

proof fn fixture_is_from_its_block(
    settings: Settings,
    disk: Disk,
    attempts: Seq<Attempt>,
    block: u64,
)
    requires
        attempts_fit(settings, attempts),
        blocks_done(settings, disk, attempts).1.files.dom().contains(fixture_file_text(block)),
    ensures
        disk.files.dom().contains(fixture_file_text(block)) || (!settings.no_save && exists|j: int|
            0 <= j < attempts.len() && #[trigger] settings.blocks[j] == block && attempts[j].file_left() is Some),
    decreases attempts.len(),
{
    if attempts.len() > 0 {
        let n = attempts.len() - 1;
        let rest = attempts.drop_last();
        assert(rest =~= attempts.take(n));
        fewer_attempts_fit(settings, attempts, n);
        run_keeps_place(settings, disk, rest);
        if blocks_done(settings, disk, rest).1.files.dom().contains(fixture_file_text(block)) {
            fixture_is_from_its_block(settings, disk, rest, block);
            if !disk.files.dom().contains(fixture_file_text(block)) {
                let j = choose|j: int|
                    0 <= j < rest.len() && #[trigger] settings.blocks[j] == block && rest[j].file_left() is Some;
                assert(attempts[j] == rest[j]);
            }
        } else {
            fixture_files_are_distinct(settings.blocks[n], block);
            assert(attempts[n] == attempts.last());
        }
    }
}

} // verus!
