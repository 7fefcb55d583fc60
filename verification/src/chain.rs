//! The chain configuration of an RPC run.

use vstd::prelude::*;

use crate::outside::{genesis_config, named_network, parse_genesis};
use crate::text::{decimal, push_decimal};

verus! {

/// A network whose chain configuration is built in.
#[derive(Clone, Copy, Debug, PartialEq, Eq, Structural)]
pub enum Network {
    Mainnet,
    Sepolia,
    Hoodi,
    Holesky,
}

/// The built-in network with a chain ID.
pub open spec fn network_of(chain_id: u64) -> Option<Network> {
    if chain_id == 1 {
        Some(Network::Mainnet)
    } else if chain_id == 11155111 {
        Some(Network::Sepolia)
    } else if chain_id == 560048 {
        Some(Network::Hoodi)
    } else if chain_id == 17000 {
        Some(Network::Holesky)
    } else {
        None
    }
}

/// The chain configuration of a run.
#[derive(Debug)]
pub enum ConfigChoice {
    /// The one in the genesis file that was given.
    Genesis(alloy_genesis::ChainConfig),
    /// That of a built-in network.
    BuiltIn(Network),
}

/// Why there is no chain configuration.
#[derive(Debug)]
pub enum ChainError {
    /// What was given is no genesis file.
    NoGenesis(serde_json::Error),
    /// The genesis file is of another chain than the RPC endpoint.
    GenesisMismatch { genesis: u64, rpc: u64 },
    /// No genesis file was given and the endpoint's chain is not built in.
    Unsupported(u64),
}

/// The configuration for the chain `rpc`, given what was read from the genesis file if there is one:
/// its chain ID and configuration, or why it could not be read.
pub open spec fn config_for(
    genesis: Option<Result<(u64, alloy_genesis::ChainConfig), serde_json::Error>>,
    rpc: u64,
) -> Result<ConfigChoice, ChainError> {
    match genesis {
        Some(Ok(found)) => if found.0 == rpc {
            Ok(ConfigChoice::Genesis(found.1))
        } else {
            Err(ChainError::GenesisMismatch { genesis: found.0, rpc })
        },
        Some(Err(error)) => Err(ChainError::NoGenesis(error)),
        None => match network_of(rpc) {
            Some(network) => Ok(ConfigChoice::BuiltIn(network)),
            None => Err(ChainError::Unsupported(rpc)),
        },
    }
}

/// Chooses the configuration for the chain `rpc`: that of the genesis file where there is one,
/// provided that it is of this chain, else that of the built-in network.
pub fn choose_config(
    genesis: Option<Result<(u64, alloy_genesis::ChainConfig), serde_json::Error>>,
    rpc: u64,
) -> (result: Result<ConfigChoice, ChainError>)
    ensures
        result == config_for(genesis, rpc),
{
    match genesis {
        Some(Ok((chain_id, config))) => if chain_id == rpc {
            Ok(ConfigChoice::Genesis(config))
        } else {
            Err(ChainError::GenesisMismatch { genesis: chain_id, rpc })
        },
        Some(Err(error)) => Err(ChainError::NoGenesis(error)),
        None => match named_network(rpc) {
            Some(network) => Ok(ConfigChoice::BuiltIn(network)),
            None => Err(ChainError::Unsupported(rpc)),
        },
    }
}

/// Chooses the configuration for the chain `rpc`, given the text of the genesis file if there is one.
pub fn chain_config(genesis: Option<&str>, rpc: u64) -> (result: Result<ConfigChoice, ChainError>)
    ensures
        result == config_for(
            match genesis {
                Some(text) => Some(genesis_config(text@)),
                None => None,
            },
            rpc,
        ),
{
    match genesis {
        Some(text) => choose_config(Some(parse_genesis(text)), rpc),
        None => choose_config(None, rpc),
    }
}

impl ChainError {
    /// The error's message; `genesis_path` is where the genesis file was read from.
    pub open spec fn message_text(self, genesis_path: Seq<char>) -> Seq<char> {
        match self {
            ChainError::NoGenesis(_) => "failed to deserialize genesis file at "@ + genesis_path,
            ChainError::GenesisMismatch { genesis, rpc } => "genesis chain ID mismatch for "@
                + genesis_path + ": genesis="@ + decimal(genesis as nat) + ", rpc="@ + decimal(
                rpc as nat,
            ),
            ChainError::Unsupported(rpc) => "unsupported chain "@ + decimal(rpc as nat),
        }
    }

    /// The error's message; `genesis_path` is where the genesis file was read from.
    pub fn message(&self, genesis_path: &str) -> (message: String)
        ensures
            message@ == self.message_text(genesis_path@),
    {
        match self {
            ChainError::NoGenesis(_) => {
                let mut message = "failed to deserialize genesis file at ".to_owned();
                message.append(genesis_path);
                message
            },
            ChainError::GenesisMismatch { genesis, rpc } => {
                let mut message = "genesis chain ID mismatch for ".to_owned();
                message.append(genesis_path);
                message.append(": genesis=");
                push_decimal(&mut message, *genesis);
                message.append(", rpc=");
                push_decimal(&mut message, *rpc);
                message
            },
            ChainError::Unsupported(rpc) => {
                let mut message = "unsupported chain ".to_owned();
                push_decimal(&mut message, *rpc);
                message
            },
        }
    }
}

/// The message that a genesis file could not be read from `path`.
pub fn unreadable_genesis_message(path: &str) -> (message: String)
    ensures
        message@ == "failed to read genesis file at "@ + path@,
{
    let mut message = "failed to read genesis file at ".to_owned();
    message.append(path);
    message
}

/// A run never proceeds with the configuration of another chain: that of a genesis file is used only
/// if its chain ID is the endpoint's, and that of a built-in network only if there is no genesis file
/// and the network has that chain ID.
pub proof fn configuration_is_of_the_endpoints_chain(
    genesis: Option<Result<(u64, alloy_genesis::ChainConfig), serde_json::Error>>,
    rpc: u64,
)
    ensures
        match config_for(genesis, rpc) {
            Ok(ConfigChoice::Genesis(config)) => genesis matches Some(Ok(found)) && found.0 == rpc
                && found.1 == config,
            Ok(ConfigChoice::BuiltIn(network)) => genesis is None && network_of(rpc) == Some(
                network,
            ),
            Err(ChainError::NoGenesis(error)) => genesis matches Some(Err(e)) && e == error,
            Err(ChainError::GenesisMismatch { genesis: g, rpc: r }) => genesis matches Some(
                Ok(found),
            ) && found.0 == g && r == rpc && g != r,
            Err(ChainError::Unsupported(r)) => genesis is None && r == rpc && network_of(rpc)
                is None,
        },
{
}

/// Each built-in network has one chain ID, its own.
pub proof fn built_in_networks_have_one_id(chain_id: u64)
    ensures
        network_of(chain_id) == Some(Network::Mainnet) <==> chain_id == 1,
        network_of(chain_id) == Some(Network::Sepolia) <==> chain_id == 11_155_111,
        network_of(chain_id) == Some(Network::Hoodi) <==> chain_id == 560_048,
        network_of(chain_id) == Some(Network::Holesky) <==> chain_id == 17_000,
{
}

/// Of a genesis file that was read, the configuration is chosen exactly if its chain ID is the
/// endpoint's, and else both chain IDs are reported; one that was not is refused as it was; and where
/// there is none, the endpoint must be of one of the four built-in networks.
pub proof fn configurations_are_chosen_by_chain(
    genesis: Option<Result<(u64, alloy_genesis::ChainConfig), serde_json::Error>>,
    rpc: u64,
    result: Result<ConfigChoice, ChainError>,
)
    requires
        call_ensures(choose_config, (genesis, rpc), result),
    ensures
        match genesis {
            Some(Ok((id, config))) => if id == rpc {
                result matches Ok(ConfigChoice::Genesis(chosen)) && chosen == config
            } else {
                result matches Err(ChainError::GenesisMismatch { genesis: g, rpc: r }) && g == id
                    && r == rpc
            },
            Some(Err(fault)) => result matches Err(ChainError::NoGenesis(error)) && error == fault,
            None => {
                &&& (rpc == 1) == (result matches Ok(ConfigChoice::BuiltIn(Network::Mainnet)))
                &&& (rpc == 11_155_111) == (result matches Ok(
                    ConfigChoice::BuiltIn(Network::Sepolia),
                ))
                &&& (rpc == 560_048) == (result matches Ok(ConfigChoice::BuiltIn(Network::Hoodi)))
                &&& (rpc == 17_000) == (result matches Ok(ConfigChoice::BuiltIn(Network::Holesky)))
                &&& result matches Ok(choice) ==> choice is BuiltIn
                &&& result matches Err(error) ==> error matches ChainError::Unsupported(r) && r
                    == rpc
            },
        },
{
}

/// To choose by the text of a genesis file is to choose by what is read from it.
pub proof fn configurations_are_read_from_the_file(
    text: &str,
    rpc: u64,
    result: Result<ConfigChoice, ChainError>,
    chosen: Result<ConfigChoice, ChainError>,
)
    requires
        call_ensures(chain_config, (Some(text), rpc), result),
        call_ensures(choose_config, (Some(genesis_config(text@)), rpc), chosen),
    ensures
        result == chosen,
{
}

/// Without a genesis file, the choice is the one among the built-in networks.
pub proof fn configurations_are_built_in_without_a_file(
    rpc: u64,
    result: Result<ConfigChoice, ChainError>,
    chosen: Result<ConfigChoice, ChainError>,
)
    requires
        call_ensures(chain_config, (None::<&str>, rpc), result),
        call_ensures(
            choose_config,
            (None::<Result<(u64, alloy_genesis::ChainConfig), serde_json::Error>>, rpc),
            chosen,
        ),
    ensures
        result == chosen,
{
}

/// What a refused start is told: where the genesis file is and which chain IDs are in question.
pub proof fn chain_errors_say_what_is_wrong(
    error: ChainError,
    path: &str,
    message: String,
    unreadable: String,
)
    requires
        call_ensures(ChainError::message, (&error, path), message),
        call_ensures(unreadable_genesis_message, (path,), unreadable),
    ensures
        match error {
            ChainError::NoGenesis(_) => message@ == "failed to deserialize genesis file at "@
                + path@,
            ChainError::GenesisMismatch { genesis, rpc } => message@
                == "genesis chain ID mismatch for "@ + path@ + ": genesis="@ + decimal(
                genesis as nat,
            ) + ", rpc="@ + decimal(rpc as nat),
            ChainError::Unsupported(rpc) => message@ == "unsupported chain "@ + decimal(rpc as nat),
        },
        unreadable@ == "failed to read genesis file at "@ + path@,
{
}

} // verus!
