//! The fixtures that are loaded when the server starts.

use vstd::prelude::*;

use crate::bytes::{byte_strings, count_unique, unique_count};
use crate::category::{classify_fixture, fixture_category};
use crate::text::{json_extension, json_names_end_in_json};

verus! {

/// A loaded fixture. `F` is the type of its contents, which are only handed on.
pub struct LoadedFixture<F> {
    pub fixture: F,
    pub name: String,
    /// The gas that its block used.
    pub gas_used: u64,
    /// The size of its file in bytes.
    pub raw_size: usize,
    /// The number of state trie nodes in its witness.
    pub n_state_nodes: usize,
    /// The number of unique code entries in its witness.
    pub n_codes: usize,
    /// The number of transactions in its block.
    pub n_txs: usize,
    /// Its category, by its size, its state trie nodes and its transactions.
    pub category: &'static str,
}

/// What a loaded fixture holds.
#[verifier::ext_equal]
pub struct LoadedView<F> {
    pub fixture: F,
    pub name: Seq<char>,
    pub gas_used: u64,
    pub raw_size: nat,
    pub n_state_nodes: nat,
    pub n_codes: nat,
    pub n_txs: nat,
    pub category: Seq<char>,
}

impl<F> View for LoadedFixture<F> {
    type V = LoadedView<F>;

    open spec fn view(&self) -> LoadedView<F> {
        LoadedView {
            fixture: self.fixture,
            name: self.name@,
            gas_used: self.gas_used,
            raw_size: self.raw_size as nat,
            n_state_nodes: self.n_state_nodes as nat,
            n_codes: self.n_codes as nat,
            n_txs: self.n_txs as nat,
            category: self.category@,
        }
    }
}

impl<F> LoadedView<F> {
    /// Whether the category is the one that the fixture's measures give.
    pub open spec fn is_classified(self) -> bool {
        self.category == fixture_category(self.raw_size, self.n_state_nodes, self.n_txs)
    }
}

/// What is read from a fixture's contents.
pub struct FixtureFacts {
    pub name: String,
    pub gas_used: u64,
    pub n_state_nodes: usize,
    /// The code entries of its witness.
    pub codes: Vec<Vec<u8>>,
    pub n_txs: usize,
}

/// The fixture that is loaded from a file of `raw_size` bytes with these contents.
pub open spec fn loaded_from<F>(fixture: F, facts: FixtureFacts, raw_size: nat) -> LoadedView<F> {
    LoadedView {
        fixture,
        name: facts.name@,
        gas_used: facts.gas_used,
        raw_size,
        n_state_nodes: facts.n_state_nodes as nat,
        n_codes: unique_count(byte_strings(facts.codes@)),
        n_txs: facts.n_txs as nat,
        category: fixture_category(raw_size, facts.n_state_nodes as nat, facts.n_txs as nat),
    }
}

/// Whether a file of `size` bytes is within a limit, of which 0 means that there is none.
pub open spec fn within_limit(size: nat, max_bytes: nat) -> bool {
    max_bytes == 0 || size <= max_bytes
}

/// What is loaded so far.
#[verifier::ext_equal]
pub struct LoaderView<F> {
    pub max_bytes: nat,
    pub skipped: nat,
    pub fixtures: Seq<LoadedView<F>>,
}

/// A file that is come across.
pub struct FoundFile<F> {
    /// Its name, without the directory.
    pub name: Seq<char>,
    /// Its size in bytes, if it can be found out.
    pub size: Option<nat>,
    /// Its contents and what is read from them, if they can be read as a fixture.
    pub contents: Option<(F, FixtureFacts)>,
}

impl<F> FoundFile<F> {
    /// The size of the file, where its name is one of a fixture and its size can be found out.
    pub open spec fn offered_size(self) -> Option<nat> {
        if json_extension(self.name) {
            self.size
        } else {
            None
        }
    }

    /// The fixture that can be loaded from the file, whatever the limit.
    pub open spec fn fixture(self) -> Option<LoadedView<F>> {
        match (self.offered_size(), self.contents) {
            (Some(size), Some(contents)) => Some(loaded_from(contents.0, contents.1, size)),
            _ => None,
        }
    }
}

impl<F> LoaderView<F> {
    /// Every loaded fixture has the category that its measures give, and is within the limit.
    pub open spec fn wf(self) -> bool {
        forall|i: int|
            0 <= i < self.fixtures.len() ==> (#[trigger] self.fixtures[i]).is_classified()
                && within_limit(self.fixtures[i].raw_size, self.max_bytes)
    }

    /// Nothing is loaded yet.
    pub open spec fn start(max_bytes: nat) -> LoaderView<F> {
        LoaderView { max_bytes, skipped: 0, fixtures: Seq::empty() }
    }

    /// What is loaded after a file of `size` bytes was offered: one that is not within the limit is
    /// counted.
    pub open spec fn offered(self, size: nat) -> LoaderView<F> {
        if within_limit(size, self.max_bytes) {
            self
        } else {
            LoaderView { skipped: self.skipped + 1, ..self }
        }
    }

    /// What is loaded with one more fixture.
    pub open spec fn added(self, fixture: LoadedView<F>) -> LoaderView<F> {
        LoaderView { fixtures: self.fixtures.push(fixture), ..self }
    }

    /// What is loaded after one more file: a file that may be a fixture is offered, and added if it
    /// is within the limit and can be read.
    pub open spec fn found(self, file: FoundFile<F>) -> LoaderView<F> {
        match file.offered_size() {
            None => self,
            Some(size) => match file.fixture() {
                Some(fixture) if within_limit(size, self.max_bytes) => self.offered(size).added(
                    fixture,
                ),
                _ => self.offered(size),
            },
        }
    }

    /// What is loaded after some more files.
    pub open spec fn after(self, files: Seq<FoundFile<F>>) -> LoaderView<F>
        decreases files.len(),
    {
        if files.len() == 0 {
            self
        } else {
            self.after(files.drop_last()).found(files.last())
        }
    }
}

/// The fixtures loaded so far.
pub struct FixtureLoader<F> {
    /// The most bytes that a file may have, or 0.
    pub max_bytes: usize,
    /// How many files were left out because of their size.
    pub skipped: usize,
    pub fixtures: Vec<LoadedFixture<F>>,
}

impl<F> View for FixtureLoader<F> {
    type V = LoaderView<F>;

    open spec fn view(&self) -> LoaderView<F> {
        LoaderView {
            max_bytes: self.max_bytes as nat,
            skipped: self.skipped as nat,
            fixtures: self.fixtures@.map_values(|loaded: LoadedFixture<F>| loaded@),
        }
    }
}

impl<F> FixtureLoader<F> {
    /// Nothing is loaded yet.
    pub fn new(max_bytes: usize) -> (loader: FixtureLoader<F>)
        ensures
            loader@ == LoaderView::<F>::start(max_bytes as nat),
            loader@.wf(),
    {
        let loader = FixtureLoader { max_bytes, skipped: 0, fixtures: Vec::new() };
        assert(loader@ =~= LoaderView::<F>::start(max_bytes as nat));
        loader
    }

    /// Decides by its size whether a file is read; one that is not is counted.
    pub fn offer(&mut self, raw_size: usize) -> (accepted: bool)
        requires
            old(self)@.skipped < usize::MAX,
        ensures
            accepted <==> within_limit(raw_size as nat, old(self)@.max_bytes),
            final(self)@ == old(self)@.offered(raw_size as nat),
            old(self)@.wf() ==> final(self)@.wf(),
    {
        if self.max_bytes > 0 && raw_size > self.max_bytes {
            self.skipped = self.skipped + 1;
            false
        } else {
            true
        }
    }

    /// Adds a fixture that was read from a file of `raw_size` bytes, a size that is within the limit.
    pub fn add(&mut self, fixture: F, facts: FixtureFacts, raw_size: usize)
        requires
            within_limit(raw_size as nat, old(self)@.max_bytes),
        ensures
            final(self)@ == old(self)@.added(loaded_from(fixture, facts, raw_size as nat)),
            old(self)@.wf() ==> final(self)@.wf(),
    {
        let category = classify_fixture(raw_size, facts.n_state_nodes, facts.n_txs);
        let n_codes: usize = count_unique(&facts.codes);
        let ghost found = facts;
        self.fixtures.push(
            LoadedFixture {
                fixture,
                name: facts.name,
                gas_used: facts.gas_used,
                raw_size,
                n_state_nodes: facts.n_state_nodes,
                n_codes,
                n_txs: facts.n_txs,
                category,
            },
        );
        assert(self@ =~= old(self)@.added(loaded_from(fixture, found, raw_size as nat)));
    }
}

/// The fixtures that can be loaded from some files where there is no limit.
pub open spec fn all_fixtures<F>(files: Seq<FoundFile<F>>) -> Seq<LoadedView<F>>
    decreases files.len(),
{
    if files.len() == 0 {
        Seq::empty()
    } else {
        match files.last().fixture() {
            Some(fixture) => all_fixtures(files.drop_last()).push(fixture),
            None => all_fixtures(files.drop_last()),
        }
    }
}

/// Those of some fixtures whose files are within a limit, in the same order.
pub open spec fn fixtures_within<F>(fixtures: Seq<LoadedView<F>>, max_bytes: nat) -> Seq<
    LoadedView<F>,
> {
    fixtures.filter(|fixture: LoadedView<F>| within_limit(fixture.raw_size, max_bytes))
}

/// How many of some files may be fixtures but are not within a limit.
pub open spec fn too_large<F>(files: Seq<FoundFile<F>>, max_bytes: nat) -> nat
    decreases files.len(),
{
    if files.len() == 0 {
        0
    } else {
        too_large(files.drop_last(), max_bytes) + match files.last().offered_size() {
            Some(size) if !within_limit(size, max_bytes) => 1nat,
            _ => 0nat,
        }
    }
}

/// From a list of files exactly those fixtures are loaded that are within the limit, in the order of
/// the files and each with its category, and exactly the files beyond the limit are counted as
/// skipped.
pub proof fn fixtures_within_the_limit_are_loaded<F>(files: Seq<FoundFile<F>>, max_bytes: nat)
    ensures
        ({
            let loaded = LoaderView::<F>::start(max_bytes).after(files);
            &&& loaded.wf()
            &&& loaded.max_bytes == max_bytes
            &&& loaded.fixtures == fixtures_within(all_fixtures(files), max_bytes)
            &&& loaded.skipped == too_large(files, max_bytes)
            &&& loaded.fixtures.len() + loaded.skipped <= files.len()
        }),
    decreases files.len(),
{
    reveal(Seq::filter);
    if files.len() > 0 {
        fixtures_within_the_limit_are_loaded(files.drop_last(), max_bytes);
        let all = all_fixtures(files);
        if let Some(fixture) = files.last().fixture() {
            assert(all.drop_last() =~= all_fixtures(files.drop_last()));
            assert(all.last() == fixture);
        }
    }
}

/// Under a stricter limit the same fixtures are loaded from the same files, without those beyond that
/// limit.
pub proof fn stricter_limit_loads_a_part<F>(files: Seq<FoundFile<F>>, strict: nat, loose: nat)
    requires
        loose == 0 || 0 < strict <= loose,
    ensures
        LoaderView::<F>::start(strict).after(files).fixtures == fixtures_within(
            LoaderView::<F>::start(loose).after(files).fixtures,
            strict,
        ),
{
    fixtures_within_the_limit_are_loaded(files, strict);
    fixtures_within_the_limit_are_loaded(files, loose);
    limits_compose(all_fixtures(files), strict, loose);
}

/// What is within the stricter of two limits is within both.
proof fn limits_compose<F>(fixtures: Seq<LoadedView<F>>, strict: nat, loose: nat)
    requires
        loose == 0 || 0 < strict <= loose,
    ensures
        fixtures_within(fixtures, strict) == fixtures_within(
            fixtures_within(fixtures, loose),
            strict,
        ),
    decreases fixtures.len(),
{
    reveal(Seq::filter);
    if fixtures.len() > 0 {
        limits_compose(fixtures.drop_last(), strict, loose);
        let kept = fixtures_within(fixtures.drop_last(), loose);
        assert(kept.push(fixtures.last()).drop_last() =~= kept);
    }
}

/// A limit of 0 keeps no file out. Any other keeps out exactly the files with more bytes than that,
/// and each of them is counted.
pub proof fn limits_are_kept<F>(loader: &mut FixtureLoader<F>, raw_size: usize, accepted: bool)
    requires
        call_ensures(FixtureLoader::<F>::offer, (loader, raw_size), accepted),
    ensures
        old(loader).max_bytes == 0 ==> accepted,
        old(loader).max_bytes > 0 ==> (accepted <==> raw_size <= old(loader).max_bytes),
        accepted ==> final(loader).skipped == old(loader).skipped,
        !accepted ==> final(loader).skipped == old(loader).skipped + 1,
        final(loader).max_bytes == old(loader).max_bytes,
        final(loader)@.fixtures == old(loader)@.fixtures,
{
}

/// Nothing is loaded by a loader that is new, and nothing is skipped; the limit is the one given.
pub proof fn loaders_begin_with_nothing<F>(max_bytes: usize, loader: FixtureLoader<F>)
    requires
        call_ensures(FixtureLoader::<F>::new, (max_bytes,), loader),
    ensures
        loader.max_bytes == max_bytes,
        loader.skipped == 0,
        loader.fixtures@.len() == 0,
{
    assert(loader@.fixtures.len() == loader.fixtures@.len());
}

/// A fixture that is added comes last, with what was read from its contents and the size of its file,
/// its different code entries counted once each, and the category that its measures give; those
/// before it stay.
pub proof fn fixtures_are_added_as_they_were_read<F>(
    loader: &mut FixtureLoader<F>,
    fixture: F,
    facts: FixtureFacts,
    raw_size: usize,
    n_codes: usize,
    category: &'static str,
)
    requires
        call_ensures(FixtureLoader::<F>::add, (loader, fixture, facts, raw_size), ()),
        call_ensures(count_unique, (&facts.codes,), n_codes),
        call_ensures(classify_fixture, (raw_size, facts.n_state_nodes, facts.n_txs), category),
    ensures
        final(loader).max_bytes == old(loader).max_bytes,
        final(loader).skipped == old(loader).skipped,
        final(loader).fixtures@.len() == old(loader).fixtures@.len() + 1,
        forall|i: int|
            0 <= i < old(loader).fixtures@.len() ==> (#[trigger] final(loader).fixtures@[i])@
                == old(loader).fixtures@[i]@,
        ({
            let added = final(loader).fixtures@.last();
            &&& added.fixture == fixture
            &&& added.name@ == facts.name@
            &&& added.gas_used == facts.gas_used
            &&& added.raw_size == raw_size
            &&& added.n_state_nodes == facts.n_state_nodes
            &&& added.n_codes == n_codes
            &&& added.n_txs == facts.n_txs
            &&& added.category@ == category@
        }),
{
    let before = old(loader)@.fixtures;
    let after = final(loader)@.fixtures;
    assert(before.len() == old(loader).fixtures@.len());
    assert(after.len() == final(loader).fixtures@.len());
    assert forall|i: int| 0 <= i < before.len() implies (#[trigger] final(loader).fixtures@[i])@
        == old(loader).fixtures@[i]@ by {
        assert(after[i] == before[i]);
        assert(after[i] == final(loader).fixtures@[i]@);
    }
    let last = before.len() as int;
    assert(after[last] == final(loader).fixtures@[last]@);
}

/// What a loaded fixture holds is what its fields say.
pub proof fn loaded_fixtures_show_their_fields<F>(loaded: LoadedFixture<F>)
    ensures
        loaded@.fixture == loaded.fixture,
        loaded@.name == loaded.name@,
        loaded@.gas_used == loaded.gas_used,
        loaded@.raw_size == loaded.raw_size,
        loaded@.n_state_nodes == loaded.n_state_nodes,
        loaded@.n_codes == loaded.n_codes,
        loaded@.n_txs == loaded.n_txs,
        loaded@.category == loaded.category@,
{
}

/// One more file changes what is loaded in one way only. A file that is not named as JSON, or whose
/// size cannot be found out, changes nothing; one with more bytes than the limit, if there is one, is
/// counted as skipped; one that cannot be read changes nothing; and any other adds its fixture.
pub proof fn files_are_taken_one_by_one<F>(
    files: Seq<FoundFile<F>>,
    file: FoundFile<F>,
    max_bytes: nat,
)
    ensures
        ({
            let before = LoaderView::<F>::start(max_bytes).after(files);
            let after = LoaderView::<F>::start(max_bytes).after(files.push(file));
            let named = exists|stem: Seq<char>|
                stem.len() > 0 && file.name == #[trigger] (stem + ".json"@);
            let beyond = file.size is Some && max_bytes > 0 && file.size->Some_0 > max_bytes;
            if !named || file.size is None {
                after == before
            } else if beyond {
                after.skipped == before.skipped + 1 && after.fixtures == before.fixtures
            } else if file.contents is None {
                after == before
            } else {
                let added = after.fixtures.last();
                let facts = (file.contents->Some_0).1;
                &&& after.skipped == before.skipped
                &&& after.fixtures == before.fixtures.push(added)
                &&& added.fixture == (file.contents->Some_0).0
                &&& added.name == facts.name@
                &&& added.gas_used == facts.gas_used
                &&& added.raw_size == file.size->Some_0
                &&& added.n_state_nodes == facts.n_state_nodes
                &&& added.n_codes == unique_count(byte_strings(facts.codes@))
                &&& added.n_txs == facts.n_txs
                &&& added.category == fixture_category(
                    file.size->Some_0,
                    facts.n_state_nodes as nat,
                    facts.n_txs as nat,
                )
            }
        }),
{
    json_names_end_in_json(file.name);
    assert(files.push(file).drop_last() =~= files);
    fixtures_within_the_limit_are_loaded(files, max_bytes);
}

/// Where there is a limit, every loaded fixture's file has at most that many bytes.
pub proof fn no_loaded_file_is_beyond_the_limit<F>(
    files: Seq<FoundFile<F>>,
    max_bytes: nat,
    i: int,
)
    requires
        max_bytes > 0,
        0 <= i < LoaderView::<F>::start(max_bytes).after(files).fixtures.len(),
    ensures
        LoaderView::<F>::start(max_bytes).after(files).fixtures[i].raw_size <= max_bytes,
{
    fixtures_within_the_limit_are_loaded(files, max_bytes);
}

} // verus!
