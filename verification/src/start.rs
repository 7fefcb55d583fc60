//! How a timed RPC run starts: what is asked and checked, in which order, before anything is written.

use vstd::prelude::*;

use crate::blocks::{blocks_asked_for, blocks_to_process, ZeroBlocks};
use crate::chain::{chain_config, config_for, ChainError, ConfigChoice};
use crate::headers::{all_headers, header_of, header_table, parse_rpc_headers, HeaderError};
use crate::outside::{genesis_config, header_entries, new_header_map};
use crate::text::texts;

verus! {

/// What the run is asked for.
pub struct RunRequest {
    /// The `Key:Value` lines that give the headers of the requests.
    pub headers: Option<Vec<String>>,
    /// Whether a genesis file is given.
    pub genesis: bool,
    pub last_n_blocks: Option<usize>,
    pub block: Option<u64>,
    /// Whether fixtures are not saved.
    pub no_save: bool,
    /// Whether there is a metrics file.
    pub keep_metrics: bool,
}

/// The lines that give the headers, of which there may be none.
pub open spec fn header_lines(headers: Option<Vec<String>>) -> Seq<Seq<char>> {
    match headers {
        Some(lines) => texts(lines@),
        None => Seq::empty(),
    }
}

/// What is done next to start the run.
#[derive(Clone, Copy, Debug, PartialEq, Eq, Structural)]
pub enum StartAction {
    /// Connect to the endpoint, with the headers.
    Connect,
    /// Ask the endpoint for its chain ID.
    AskChainId,
    /// Read the genesis file.
    ReadGenesis,
    /// Ask the endpoint for the number of its latest block.
    AskLatestBlock,
    /// Create the output folder, unless it exists.
    MakeFolder,
    /// Open the metrics file, with its heading line.
    OpenMetrics,
    /// Work through the blocks.
    Go,
}

impl StartAction {
    /// Whether the action writes to the disk.
    pub open spec fn writes(self) -> bool {
        self is MakeFolder || self is OpenMetrics
    }
}

/// What came of an action.
pub enum StartEvent {
    Connected,
    ChainId(u64),
    /// The text of the genesis file.
    Genesis(String),
    LatestBlock(u64),
    FolderMade,
    MetricsOpened,
}

/// Why the run does not start.
#[derive(Debug)]
pub enum StartError {
    /// There is no chain configuration for it.
    Chain(ChainError),
    /// No blocks at all are asked for.
    Blocks(ZeroBlocks),
}

/// How far the start has come.
#[verifier::ext_equal]
pub struct StartView {
    pub genesis: bool,
    pub last_n_blocks: Option<usize>,
    pub block: Option<u64>,
    pub no_save: bool,
    pub keep_metrics: bool,
    /// What is done next.
    pub action: StartAction,
    /// The endpoint's chain ID, once it is known.
    pub chain_id: Option<u64>,
    /// The chain configuration, once it is chosen.
    pub config: Option<ConfigChoice>,
    /// The blocks, once they are known.
    pub blocks: Seq<u64>,
}

impl StartView {
    /// What is known when an action comes next: the chain ID before a genesis file is read, and the
    /// configuration before the blocks.
    pub open spec fn wf(self) -> bool {
        &&& self.action is ReadGenesis ==> self.chain_id is Some
        &&& self.action is AskLatestBlock || self.action.writes() || self.action is Go
            ==> self.config is Some
    }

    /// Whether an event is what comes of the next action.
    pub open spec fn awaits(self, event: StartEvent) -> bool {
        match self.action {
            StartAction::Connect => event is Connected,
            StartAction::AskChainId => event is ChainId,
            StartAction::ReadGenesis => event is Genesis,
            StartAction::AskLatestBlock => event is LatestBlock,
            StartAction::MakeFolder => event is FolderMade,
            StartAction::OpenMetrics => event is MetricsOpened,
            StartAction::Go => false,
        }
    }

    /// The start with the configuration that was chosen, or the error where there is none.
    pub open spec fn configured(self, choice: Result<ConfigChoice, ChainError>) -> Result<
        StartView,
        StartError,
    > {
        match choice {
            Ok(config) => Ok(
                StartView { config: Some(config), action: StartAction::AskLatestBlock, ..self },
            ),
            Err(error) => Err(StartError::Chain(error)),
        }
    }

    /// The start when all that is left is the metrics file.
    pub open spec fn with_folder(self) -> StartView {
        if self.keep_metrics {
            StartView { action: StartAction::OpenMetrics, ..self }
        } else {
            StartView { action: StartAction::Go, ..self }
        }
    }

    /// The start after an event.
    pub open spec fn after(self, event: StartEvent) -> Result<StartView, StartError> {
        match event {
            StartEvent::Connected => Ok(StartView { action: StartAction::AskChainId, ..self }),
            StartEvent::ChainId(id) => {
                let known = StartView { chain_id: Some(id), ..self };
                if self.genesis {
                    Ok(StartView { action: StartAction::ReadGenesis, ..known })
                } else {
                    known.configured(config_for(None, id))
                }
            },
            StartEvent::Genesis(text) => self.configured(
                config_for(Some(genesis_config(text@)), self.chain_id->Some_0),
            ),
            StartEvent::LatestBlock(latest) => match blocks_asked_for(
                latest,
                self.last_n_blocks,
                self.block,
            ) {
                Ok(blocks) => {
                    let known = StartView { blocks, ..self };
                    if self.no_save {
                        Ok(known.with_folder())
                    } else {
                        Ok(StartView { action: StartAction::MakeFolder, ..known })
                    }
                },
                Err(error) => Err(StartError::Blocks(error)),
            },
            StartEvent::FolderMade => Ok(self.with_folder()),
            StartEvent::MetricsOpened => Ok(StartView { action: StartAction::Go, ..self }),
        }
    }

    /// The start of a run that nothing is done for yet.
    pub open spec fn first(request: RunRequest) -> StartView {
        StartView {
            genesis: request.genesis,
            last_n_blocks: request.last_n_blocks,
            block: request.block,
            no_save: request.no_save,
            keep_metrics: request.keep_metrics,
            action: StartAction::Connect,
            chain_id: None,
            config: None,
            blocks: Seq::empty(),
        }
    }
}

/// The start of a run.
pub struct RunStart {
    genesis: bool,
    last_n_blocks: Option<usize>,
    block: Option<u64>,
    no_save: bool,
    keep_metrics: bool,
    action: StartAction,
    chain_id: Option<u64>,
    config: Option<ConfigChoice>,
    blocks: Vec<u64>,
}

impl View for RunStart {
    type V = StartView;

    closed spec fn view(&self) -> StartView {
        StartView {
            genesis: self.genesis,
            last_n_blocks: self.last_n_blocks,
            block: self.block,
            no_save: self.no_save,
            keep_metrics: self.keep_metrics,
            action: self.action,
            chain_id: self.chain_id,
            config: self.config,
            blocks: self.blocks@,
        }
    }
}

impl RunStart {
    /// Starts a run: nothing is done for one whose header lines are refused. The headers are handed
    /// out, for the connection.
    pub fn new(request: RunRequest) -> (result: Result<
        (RunStart, http::HeaderMap<http::HeaderValue>),
        HeaderError,
    >)
        ensures
            result matches Ok(started) ==> {
                &&& all_headers(header_lines(request.headers))
                &&& header_entries(started.1) == header_table(header_lines(request.headers))
                &&& started.0@ == StartView::first(request)
                &&& started.0@.wf()
            },
            result matches Err(error) ==> error.refuses(header_lines(request.headers)),
            header_table(header_lines(request.headers)).dom().len() <= 6553 || header_lines(
                request.headers,
            ).len() <= 6554 ==> (result is Ok <==> all_headers(header_lines(request.headers))),
    {
        let headers = match &request.headers {
            Some(lines) => match parse_rpc_headers(lines.as_slice()) {
                Ok(headers) => headers,
                Err(error) => return Err(error),
            },
            None => new_header_map(),
        };
        let start = RunStart {
            genesis: request.genesis,
            last_n_blocks: request.last_n_blocks,
            block: request.block,
            no_save: request.no_save,
            keep_metrics: request.keep_metrics,
            action: StartAction::Connect,
            chain_id: None,
            config: None,
            blocks: Vec::new(),
        };
        assert(start@ =~= StartView::first(request));
        Ok((start, headers))
    }

    /// What is done next.
    pub fn action(&self) -> (action: StartAction)
        ensures
            action == self@.action,
    {
        self.action
    }

    /// Goes on after what came of the action, or says why the run does not start.
    pub fn advance(self, event: StartEvent) -> (result: Result<RunStart, StartError>)
        requires
            self@.wf(),
            self@.awaits(event),
        ensures
            match self@.after(event) {
                Ok(start) => result matches Ok(found) && found@ == start && found@.wf(),
                Err(error) => result == Err::<RunStart, StartError>(error),
            },
    {
        let mut start = self;
        match event {
            StartEvent::Connected => {
                start.action = StartAction::AskChainId;
                Ok(start)
            },
            StartEvent::ChainId(id) => {
                start.chain_id = Some(id);
                if start.genesis {
                    start.action = StartAction::ReadGenesis;
                    Ok(start)
                } else {
                    start.configure(chain_config(None, id))
                }
            },
            StartEvent::Genesis(text) => {
                let id: u64 = start.chain_id.unwrap();
                start.configure(chain_config(Some(text.as_str()), id))
            },
            StartEvent::LatestBlock(latest) => {
                match blocks_to_process(latest, start.last_n_blocks, start.block) {
                    Ok(blocks) => {
                        start.blocks = blocks;
                        if start.no_save {
                            Ok(start.go_on_with_folder())
                        } else {
                            start.action = StartAction::MakeFolder;
                            Ok(start)
                        }
                    },
                    Err(error) => Err(StartError::Blocks(error)),
                }
            },
            StartEvent::FolderMade => Ok(start.go_on_with_folder()),
            StartEvent::MetricsOpened => {
                start.action = StartAction::Go;
                Ok(start)
            },
        }
    }

    fn configure(self, choice: Result<ConfigChoice, ChainError>) -> (result: Result<
        RunStart,
        StartError,
    >)
        ensures
            match self@.configured(choice) {
                Ok(start) => result matches Ok(found) && found@ == start,
                Err(error) => result == Err::<RunStart, StartError>(error),
            },
    {
        match choice {
            Ok(config) => {
                let mut start = self;
                start.config = Some(config);
                start.action = StartAction::AskLatestBlock;
                Ok(start)
            },
            Err(error) => Err(StartError::Chain(error)),
        }
    }

    fn go_on_with_folder(self) -> (start: RunStart)
        ensures
            start@ == self@.with_folder(),
    {
        let mut start = self;
        start.action = if start.keep_metrics {
            StartAction::OpenMetrics
        } else {
            StartAction::Go
        };
        start
    }

    /// The chain configuration and the blocks of a run that is to go, in order.
    pub fn finish(self) -> (run: (ConfigChoice, Vec<u64>))
        requires
            self@.wf(),
            self@.action is Go,
        ensures
            Some(run.0) == self@.config,
            run.1@ == self@.blocks,
    {
        (self.config.unwrap(), self.blocks)
    }
}

/// What comes of the actions of a start, where they succeed.
pub struct StartAnswers {
    pub chain_id: u64,
    /// The text of the genesis file.
    pub genesis: String,
    pub latest_block: u64,
}

impl StartAnswers {
    /// What comes of an action.
    pub open spec fn event(self, action: StartAction) -> StartEvent {
        match action {
            StartAction::Connect => StartEvent::Connected,
            StartAction::AskChainId => StartEvent::ChainId(self.chain_id),
            StartAction::ReadGenesis => StartEvent::Genesis(self.genesis),
            StartAction::AskLatestBlock => StartEvent::LatestBlock(self.latest_block),
            StartAction::MakeFolder => StartEvent::FolderMade,
            _ => StartEvent::MetricsOpened,
        }
    }

    /// The chain configuration that these answers lead to.
    pub open spec fn config(self, request: RunRequest) -> Result<ConfigChoice, ChainError> {
        config_for(
            if request.genesis {
                Some(genesis_config(self.genesis@))
            } else {
                None
            },
            self.chain_id,
        )
    }

    /// The blocks that these answers lead to.
    pub open spec fn blocks(self, request: RunRequest) -> Result<Seq<u64>, ZeroBlocks> {
        blocks_asked_for(self.latest_block, request.last_n_blocks, request.block)
    }
}

/// The actions that are done for a run in up to `steps` steps, and how far it has come by then. An
/// action that fails ends the start, so that no further steps are made.
pub open spec fn started(request: RunRequest, answers: StartAnswers, steps: nat) -> (
    Seq<StartAction>,
    Result<StartView, StartError>,
)
    decreases steps,
{
    if steps == 0 {
        (Seq::empty(), Ok(StartView::first(request)))
    } else {
        let before = started(request, answers, (steps - 1) as nat);
        match before.1 {
            Ok(start) => if start.action is Go {
                before
            } else {
                (before.0.push(start.action), start.after(answers.event(start.action)))
            },
            Err(error) => before,
        }
    }
}

/// What is known of a start that goes by some answers.
spec fn goes_by(start: StartView, request: RunRequest, answers: StartAnswers) -> bool {
    let first = StartView::first(request);
    &&& start == (StartView {
        action: start.action,
        chain_id: start.chain_id,
        config: start.config,
        blocks: start.blocks,
        ..first
    })
    &&& start.action is ReadGenesis ==> start.genesis && start.chain_id == Some(answers.chain_id)
    &&& start.action is AskLatestBlock || start.action.writes() || start.action is Go
        ==> answers.config(request) is Ok && start.config == Some(answers.config(request)->Ok_0)
    &&& start.action.writes() || start.action is Go ==> answers.blocks(request) is Ok
        && start.blocks == answers.blocks(request)->Ok_0
}

proof fn start_goes_by_answers(request: RunRequest, answers: StartAnswers, steps: nat)
    ensures
        ({
            let (actions, result) = started(request, answers, steps);
            &&& forall|i: int|
                0 <= i < actions.len() && (#[trigger] actions[i]).writes() ==> answers.config(
                    request,
                ) is Ok && answers.blocks(request) is Ok
            &&& result matches Ok(start) ==> goes_by(start, request, answers)
        }),
    decreases steps,
{
    if steps > 0 {
        start_goes_by_answers(request, answers, (steps - 1) as nat);
    }
}

/// Nothing is written for a run before all is known to be in order: whenever the output folder or
/// the metrics file is touched, or is to be touched next, there is a chain configuration for the
/// endpoint's chain, and there are blocks asked for. That holds however far the start comes.
pub proof fn writing_comes_after_the_checks(
    request: RunRequest,
    answers: StartAnswers,
    steps: nat,
)
    ensures
        ({
            let (actions, result) = started(request, answers, steps);
            &&& forall|i: int|
                0 <= i < actions.len() && (#[trigger] actions[i]).writes() ==> answers.config(
                    request,
                ) is Ok && answers.blocks(request) is Ok
            &&& result matches Ok(start) ==> start.wf() && (start.action is Go || start.awaits(
                answers.event(start.action),
            )) && (start.action.writes() || start.action is Go ==> answers.config(request) is Ok
                && answers.blocks(request) is Ok)
        }),
{
    start_goes_by_answers(request, answers, steps);
}

/// The actions of a start that nothing stops, in order.
pub open spec fn all_actions(request: RunRequest) -> Seq<StartAction> {
    seq![StartAction::Connect, StartAction::AskChainId] + (if request.genesis {
        seq![StartAction::ReadGenesis]
    } else {
        seq![]
    }) + seq![StartAction::AskLatestBlock] + (if request.no_save {
        seq![]
    } else {
        seq![StartAction::MakeFolder]
    }) + (if request.keep_metrics {
        seq![StartAction::OpenMetrics]
    } else {
        seq![]
    })
}

/// A run starts exactly if there is a chain configuration for the endpoint's chain and there are
/// blocks asked for. Then the actions are done in order, and the run has that configuration and
/// those blocks; else it is refused with the first error, and nothing is written.
pub proof fn run_starts_if_all_is_in_order(request: RunRequest, answers: StartAnswers, steps: nat)
    requires
        steps >= 6,
    ensures
        ({
            let (actions, result) = started(request, answers, steps);
            match (answers.config(request), answers.blocks(request)) {
                (Ok(config), Ok(blocks)) => {
                    &&& actions == all_actions(request)
                    &&& result matches Ok(start) && start.action is Go && start.config == Some(
                        config,
                    ) && start.blocks == blocks
                },
                (Err(error), _) => {
                    &&& result == Err::<StartView, StartError>(StartError::Chain(error))
                    &&& forall|i: int| 0 <= i < actions.len() ==> !(#[trigger] actions[i]).writes()
                },
                (Ok(_), Err(error)) => {
                    &&& result == Err::<StartView, StartError>(StartError::Blocks(error))
                    &&& forall|i: int| 0 <= i < actions.len() ==> !(#[trigger] actions[i]).writes()
                },
            }
        }),
    decreases steps,
{
    start_goes_by_answers(request, answers, steps);
    if steps == 6 {
        reveal_with_fuel(started, 7);
    } else {
        run_starts_if_all_is_in_order(request, answers, (steps - 1) as nat);
    }
}

/// A start that is made has the headers of the lines that were given, and nothing done for it: it
/// connects first.
pub proof fn starts_connect_first(
    request: RunRequest,
    start: RunStart,
    headers: http::HeaderMap<http::HeaderValue>,
)
    requires
        call_ensures(
            RunStart::new,
            (request,),
            Ok::<(RunStart, http::HeaderMap<http::HeaderValue>), HeaderError>((start, headers)),
        ),
    ensures
        start@.action is Connect,
        start@.genesis == request.genesis,
        start@.last_n_blocks == request.last_n_blocks,
        start@.block == request.block,
        start@.no_save == request.no_save,
        start@.keep_metrics == request.keep_metrics,
        request.headers is None ==> header_entries(headers).dom() =~= Set::empty(),
        request.headers matches Some(lines) ==> all_headers(texts(lines@)) && header_entries(
            headers,
        ) == header_table(texts(lines@)),
{
}

/// What a start goes on to do is what was not done yet, in order: it asks for the chain ID once it is
/// connected; reads the genesis file then if there is one, and else must find the chain built in; asks
/// for the latest block once there is a configuration; and then, if there are blocks to work through,
/// makes the folder if fixtures are saved, opens the metrics file if there is one, and goes.
pub proof fn starts_go_on_in_order(
    start: RunStart,
    event: StartEvent,
    result: Result<RunStart, StartError>,
)
    requires
        call_ensures(RunStart::advance, (start, event), result),
        start@.wf(),
        start@.awaits(event),
    ensures
        result matches Ok(next) ==> {
            &&& next@.genesis == start@.genesis && next@.last_n_blocks == start@.last_n_blocks
            &&& next@.block == start@.block && next@.no_save == start@.no_save
            &&& next@.keep_metrics == start@.keep_metrics
        },
        match start@.action {
            StartAction::Connect => result matches Ok(next) && next@.action is AskChainId,
            StartAction::AskChainId => {
                let id = event->ChainId_0;
                if start@.genesis {
                    result matches Ok(next) && next@.action is ReadGenesis && next@.chain_id == Some(
                        id,
                    )
                } else {
                    match config_for(None, id) {
                        Ok(config) => result matches Ok(next) && next@.action is AskLatestBlock
                            && next@.config == Some(config),
                        Err(error) => result matches Err(StartError::Chain(e)) && e == error,
                    }
                }
            },
            StartAction::ReadGenesis => match config_for(
                Some(genesis_config((event->Genesis_0)@)),
                start@.chain_id->Some_0,
            ) {
                Ok(config) => result matches Ok(next) && next@.action is AskLatestBlock
                    && next@.config == Some(config),
                Err(error) => result matches Err(StartError::Chain(e)) && e == error,
            },
            StartAction::AskLatestBlock => match blocks_asked_for(
                event->LatestBlock_0,
                start@.last_n_blocks,
                start@.block,
            ) {
                Ok(blocks) => result matches Ok(next) && next@.blocks == blocks && next@.config
                    == start@.config && (if !start@.no_save {
                    next@.action is MakeFolder
                } else if start@.keep_metrics {
                    next@.action is OpenMetrics
                } else {
                    next@.action is Go
                }),
                Err(error) => result matches Err(StartError::Blocks(_)),
            },
            StartAction::MakeFolder => result matches Ok(next) && next@.blocks == start@.blocks
                && next@.config == start@.config && (if start@.keep_metrics {
                next@.action is OpenMetrics
            } else {
                next@.action is Go
            }),
            StartAction::OpenMetrics => result matches Ok(next) && next@.blocks == start@.blocks
                && next@.config == start@.config && next@.action is Go,
            StartAction::Go => false,
        },
{
}

/// A start that is over hands out the configuration that was chosen and the blocks to work through.
pub proof fn starts_hand_out_what_they_found(
    start: RunStart,
    action: StartAction,
    run: (ConfigChoice, Vec<u64>),
)
    requires
        call_ensures(RunStart::action, (&start,), action),
        call_ensures(RunStart::finish, (start,), run),
    ensures
        action == start@.action,
        start@.config == Some(run.0),
        run.1@ == start@.blocks,
{
}

/// A start is refused for its header lines just as the lines are, and without lines it is made.
pub proof fn starts_are_refused_for_their_lines(
    request: RunRequest,
    result: Result<(RunStart, http::HeaderMap<http::HeaderValue>), HeaderError>,
)
    requires
        call_ensures(RunStart::new, (request,), result),
    ensures
        request.headers is None ==> result is Ok,
        request.headers matches Some(lines) ==> {
            &&& result matches Err(error) ==> error.refuses(texts(lines@))
            &&& lines@.len() <= 6554 ==> (result is Ok <==> forall|i: int|
                0 <= i < lines@.len() ==> header_of((#[trigger] lines@[i])@) is Ok)
        },
{
    if let Some(lines) = request.headers {
        let all = texts(lines@);
        assert forall|i: int| 0 <= i < all.len() implies all[i] == (#[trigger] lines@[i])@ by {}
        if forall|i: int| 0 <= i < lines@.len() ==> header_of((#[trigger] lines@[i])@) is Ok {
            assert forall|i: int| 0 <= i < all.len() implies header_of(#[trigger] all[i]) is Ok by {
                assert(all[i] == lines@[i]@);
            }
        }
        if all_headers(all) {
            assert forall|i: int| 0 <= i < lines@.len() implies header_of(
                (#[trigger] lines@[i])@,
            ) is Ok by {
                assert(header_of(all[i]) is Ok);
            }
        }
    }
}

} // verus!
