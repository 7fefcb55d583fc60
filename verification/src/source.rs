//! Where fixtures are generated from, and with which settings.

use vstd::prelude::*;

use crate::blocks::{blocks_asked_for, latest_blocks, ZeroBlocks};

verus! {

/// The most bytes that an RPC response may have.
pub const MAX_RESPONSE_BYTES: u32 = 1_073_741_824;

/// The seconds after which an RPC request is given up.
pub const REQUEST_TIMEOUT_SECS: u64 = 600;

/// The source that was asked for on the command line. `P` is the type of paths.
pub enum SourceCommand<P> {
    /// The execution specification tests.
    Tests {
        /// The release to take. If it is empty, the latest is taken.
        tag: Option<String>,
        /// Take only tests whose names contain one of these.
        includes: Option<Vec<String>>,
        /// Leave out tests whose names contain one of these.
        excludes: Option<Vec<String>>,
        /// A folder that holds the tests.
        eest_fixtures_path: Option<P>,
    },
    /// The raw inputs that a folder lists.
    RawInput { input_folder: P },
    /// An RPC endpoint.
    Rpc {
        last_n_blocks: Option<usize>,
        block: Option<u64>,
        /// Whether to listen for new blocks.
        follow: bool,
        rpc_url: String,
        rpc_header: Option<Vec<String>>,
        genesis: Option<P>,
    },
}

/// How a source is worked through.
#[derive(Clone, Copy, Debug, PartialEq, Eq, Structural)]
pub enum Course {
    /// By the timed run, which can be resumed.
    Timed,
    /// By a generator, which writes the fixtures to the output folder.
    Generate,
    /// A generator is set up, but as no fixture is to be saved, it is not set to work.
    SetUpOnly,
}

impl<P> SourceCommand<P> {
    /// Only an endpoint that is not followed is worked through by the timed run.
    pub open spec fn course_for(self, no_save: bool) -> Course {
        if self is Rpc && !self->follow {
            Course::Timed
        } else if no_save {
            Course::SetUpOnly
        } else {
            Course::Generate
        }
    }

    /// How the source is worked through.
    pub fn course(&self, no_save: bool) -> (course: Course)
        ensures
            course == self.course_for(no_save),
    {
        match self {
            SourceCommand::Rpc { follow: false, .. } => Course::Timed,
            _ => if no_save {
                Course::SetUpOnly
            } else {
                Course::Generate
            },
        }
    }
}

/// Where the execution specification tests are taken from.
pub enum TestSource<P> {
    /// The release with this tag.
    Tag(String),
    /// The tests in this folder.
    Folder(P),
    /// The latest release.
    Latest,
}

/// Which blocks a generator takes from an endpoint.
#[derive(Clone, Copy, Debug, PartialEq, Eq, Structural)]
pub enum BlockSelection {
    /// Those that come in until it is stopped.
    Listen,
    /// This one.
    Block(u64),
    /// This many, up to the latest.
    Last(usize),
    /// None: no blocks at all were asked for, which is refused.
    Zero,
}

/// The settings of a generator, in the order in which they are applied.
pub enum GeneratorPlan<P> {
    Tests {
        source: TestSource<P>,
        includes: Option<Vec<String>>,
        excludes: Option<Vec<String>>,
    },
    RawInput { input_folder: P },
    Rpc {
        rpc_url: String,
        headers: Option<Vec<String>>,
        genesis: Option<P>,
        blocks: BlockSelection,
    },
}

/// A tag goes before a folder, and without either, or with an empty tag, the latest release is taken.
pub open spec fn test_source<P>(tag: Option<String>, folder: Option<P>) -> TestSource<P> {
    match (tag, folder) {
        (Some(tag), _) => if tag@.len() == 0 {
            TestSource::Latest
        } else {
            TestSource::Tag(tag)
        },
        (None, Some(folder)) => TestSource::Folder(folder),
        (None, None) => TestSource::Latest,
    }
}

/// To follow goes before a block, and a block before a number of blocks, which is 1 unless it is
/// given and must not be 0.
pub open spec fn block_selection(
    follow: bool,
    block: Option<u64>,
    last_n_blocks: Option<usize>,
) -> BlockSelection {
    if follow {
        BlockSelection::Listen
    } else {
        match (block, last_n_blocks) {
            (Some(block), _) => BlockSelection::Block(block),
            (None, Some(n)) => if n == 0 {
                BlockSelection::Zero
            } else {
                BlockSelection::Last(n)
            },
            (None, None) => BlockSelection::Last(1),
        }
    }
}

/// The settings of the generator for a source.
pub open spec fn plan_for<P>(source: SourceCommand<P>) -> GeneratorPlan<P> {
    match source {
        SourceCommand::Tests { tag, includes, excludes, eest_fixtures_path } => {
            GeneratorPlan::Tests {
                source: test_source(tag, eest_fixtures_path),
                includes,
                excludes,
            }
        },
        SourceCommand::RawInput { input_folder } => GeneratorPlan::RawInput { input_folder },
        SourceCommand::Rpc { last_n_blocks, block, follow, rpc_url, rpc_header, genesis } => {
            GeneratorPlan::Rpc {
                rpc_url,
                headers: rpc_header,
                genesis,
                blocks: block_selection(follow, block, last_n_blocks),
            }
        },
    }
}

/// The blocks that a generator takes from an endpoint.
pub fn select_blocks(follow: bool, block: Option<u64>, last_n_blocks: Option<usize>) -> (selection:
    BlockSelection)
    ensures
        selection == block_selection(follow, block, last_n_blocks),
{
    if follow {
        BlockSelection::Listen
    } else if let Some(block) = block {
        BlockSelection::Block(block)
    } else {
        let n: usize = last_n_blocks.unwrap_or(1);
        if n == 0 {
            BlockSelection::Zero
        } else {
            BlockSelection::Last(n)
        }
    }
}

/// The settings of the generator for a source.
pub fn plan_generator<P>(source: SourceCommand<P>) -> (plan: GeneratorPlan<P>)
    ensures
        plan == plan_for(source),
{
    match source {
        SourceCommand::Tests { tag, includes, excludes, eest_fixtures_path } => {
            let source = if let Some(tag) = tag {
                if tag.as_str().is_empty() {
                    TestSource::Latest
                } else {
                    TestSource::Tag(tag)
                }
            } else if let Some(folder) = eest_fixtures_path {
                TestSource::Folder(folder)
            } else {
                TestSource::Latest
            };
            GeneratorPlan::Tests { source, includes, excludes }
        },
        SourceCommand::RawInput { input_folder } => GeneratorPlan::RawInput { input_folder },
        SourceCommand::Rpc { last_n_blocks, block, follow, rpc_url, rpc_header, genesis } => {
            GeneratorPlan::Rpc {
                rpc_url,
                headers: rpc_header,
                genesis,
                blocks: select_blocks(follow, block, last_n_blocks),
            }
        },
    }
}

/// The message that refuses a generator for no blocks.
pub fn zero_blocks_message() -> (message: &'static str)
    ensures
        message@ == "Number of blocks must be greater than 0"@,
{
    "Number of blocks must be greater than 0"
}

/// The timed run and the generator agree: of an endpoint that is not followed, where not both a
/// block and a number of blocks were given, they take the same blocks, or both refuse.
pub proof fn run_and_generator_take_the_same_blocks(
    latest: u64,
    last_n_blocks: Option<usize>,
    block: Option<u64>,
)
    requires
        last_n_blocks is None || block is None,
    ensures
        match block_selection(false, block, last_n_blocks) {
            BlockSelection::Listen => false,
            BlockSelection::Block(b) => blocks_asked_for(latest, last_n_blocks, block) == Ok::<
                Seq<u64>,
                ZeroBlocks,
            >(seq![b]),
            BlockSelection::Last(n) => blocks_asked_for(latest, last_n_blocks, block) == Ok::<
                Seq<u64>,
                ZeroBlocks,
            >(latest_blocks(latest, n as nat)),
            BlockSelection::Zero => blocks_asked_for(latest, last_n_blocks, block) is Err,
        },
{
    assert(latest_blocks(latest, 1) =~= seq![latest]);
}

/// An endpoint that is not followed runs timed, saving or not. Any other source is generated from
/// exactly if fixtures are saved.
pub proof fn courses_go_by_source<P>(source: SourceCommand<P>, no_save: bool, course: Course)
    requires
        call_ensures(SourceCommand::<P>::course, (&source, no_save), course),
    ensures
        match source {
            SourceCommand::Rpc { follow, .. } => course is Timed <==> !follow,
            _ => course !is Timed,
        },
        course is Generate <==> course !is Timed && !no_save,
        course is SetUpOnly <==> course !is Timed && no_save,
{
}

/// The filters of a generator for the tests are those that were given, each as it was; its source is
/// the release with the tag that was given, or the latest where the tag is empty, or else the folder
/// that was given, or else the latest release.
pub proof fn test_settings_are_those_given<P>(
    tag: Option<String>,
    includes: Option<Vec<String>>,
    excludes: Option<Vec<String>>,
    eest_fixtures_path: Option<P>,
    plan: GeneratorPlan<P>,
)
    requires
        call_ensures(
            plan_generator::<P>,
            (SourceCommand::Tests { tag, includes, excludes, eest_fixtures_path },),
            plan,
        ),
    ensures
        plan matches GeneratorPlan::Tests { source: s, includes: i, excludes: e } && i == includes
            && e == excludes && match (tag, eest_fixtures_path) {
            (Some(tag), _) => if tag@.len() == 0 {
                s is Latest
            } else {
                s matches TestSource::Tag(t) && t == tag
            },
            (None, Some(folder)) => s matches TestSource::Folder(f) && f == folder,
            (None, None) => s is Latest,
        },
{
}

/// A generator for raw inputs takes the folder that was given.
pub proof fn raw_input_settings_are_those_given<P>(input_folder: P, plan: GeneratorPlan<P>)
    requires
        call_ensures(plan_generator::<P>, (SourceCommand::RawInput { input_folder },), plan),
    ensures
        plan matches GeneratorPlan::RawInput { input_folder: f } && f == input_folder,
{
}

/// A generator for an endpoint takes the URL, the headers and the genesis file that were given, each
/// as it was, and the blocks that are selected by the rest.
pub proof fn endpoint_settings_are_those_given<P>(
    last_n_blocks: Option<usize>,
    block: Option<u64>,
    follow: bool,
    rpc_url: String,
    rpc_header: Option<Vec<String>>,
    genesis: Option<P>,
    plan: GeneratorPlan<P>,
    selection: BlockSelection,
)
    requires
        call_ensures(
            plan_generator::<P>,
            (SourceCommand::Rpc { last_n_blocks, block, follow, rpc_url, rpc_header, genesis },),
            plan,
        ),
        call_ensures(select_blocks, (follow, block, last_n_blocks), selection),
    ensures
        plan matches GeneratorPlan::Rpc { rpc_url: u, headers: h, genesis: g, blocks: b } && u
            == rpc_url && h == rpc_header && g == genesis && b == selection,
{
}

/// A generator listens exactly if it is to follow. Otherwise it takes the block that is asked for, or
/// else as many of the last blocks as are asked for, which is one if nothing is said, and refuses
/// none.
pub proof fn blocks_are_selected_as_asked(
    follow: bool,
    block: Option<u64>,
    last_n_blocks: Option<usize>,
    selection: BlockSelection,
)
    requires
        call_ensures(select_blocks, (follow, block, last_n_blocks), selection),
    ensures
        follow <==> selection is Listen,
        !follow ==> match block {
            Some(b) => selection == BlockSelection::Block(b),
            None => match last_n_blocks {
                Some(n) => if n == 0 {
                    selection is Zero
                } else {
                    selection == BlockSelection::Last(n)
                },
                None => selection == BlockSelection::Last(1),
            },
        },
{
}

/// A generator for no blocks is refused with a message that says what must be given.
pub proof fn no_blocks_to_generate_are_refused_in_words(message: &'static str)
    requires
        call_ensures(zero_blocks_message, (), message),
    ensures
        message@ == "Number of blocks must be greater than 0"@,
{
}

} // verus!
