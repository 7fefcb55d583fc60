use alloy_genesis::ChainConfig;
use witness_tools::chain::{
    chain_config, choose_config, unreadable_genesis_message, ChainError, ConfigChoice, Network,
};

fn built_in(rpc: u64) -> Option<Network> {
    match choose_config(None, rpc) {
        Ok(ConfigChoice::BuiltIn(network)) => Some(network),
        Ok(ConfigChoice::Genesis(_)) => panic!(),
        Err(error) => {
            assert!(matches!(error, ChainError::Unsupported(id) if id == rpc));
            None
        }
    }
}

#[test]
fn built_in_networks() {
    assert_eq!(built_in(1), Some(Network::Mainnet));
    assert_eq!(built_in(11_155_111), Some(Network::Sepolia));
    assert_eq!(built_in(560_048), Some(Network::Hoodi));
    assert_eq!(built_in(17_000), Some(Network::Holesky));
    assert!(matches!(chain_config(None, 1), Ok(ConfigChoice::BuiltIn(Network::Mainnet))));
}

#[test]
fn other_chains_are_unsupported() {
    for id in [0, 2, 5, 10, 137, 8453, 1337, u64::MAX] {
        assert_eq!(built_in(id), None);
    }
    let error = chain_config(None, 1337).unwrap_err();
    assert_eq!(error.message(""), "unsupported chain 1337");
}

#[test]
fn no_other_id_is_built_in() {
    for id in 0..1_000_000 {
        assert_eq!(built_in(id).is_some(), id == 1 || id == 17_000 || id == 560_048, "{id}");
    }
}

#[test]
fn a_genesis_file_must_be_of_the_chain() {
    let mut config = ChainConfig::default();
    config.chain_id = 5;
    match choose_config(Some(Ok((5, config.clone()))), 5) {
        Ok(ConfigChoice::Genesis(chosen)) => assert_eq!(chosen, config),
        _ => panic!(),
    }
    let error = choose_config(Some(Ok((5, config))), 1).unwrap_err();
    assert!(matches!(error, ChainError::GenesisMismatch { genesis: 5, rpc: 1 }));
    assert_eq!(
        error.message("/tmp/genesis.json"),
        "genesis chain ID mismatch for /tmp/genesis.json: genesis=5, rpc=1"
    );
}

#[test]
fn the_configuration_of_a_genesis_file() {
    let text = r#"{"config": {"chainId": 1337, "londonBlock": 7, "pragueTime": "0x9"}, "nonce": "0x1"}"#;
    match chain_config(Some(text), 1337) {
        Ok(ConfigChoice::Genesis(config)) => {
            assert_eq!(config.chain_id, 1337);
            assert_eq!((config.london_block, config.prague_time), (Some(7), Some(9)));
            assert_eq!(config.berlin_block, None);
        }
        _ => panic!(),
    }
    let error = chain_config(Some(text), 1).unwrap_err();
    assert!(matches!(error, ChainError::GenesisMismatch { genesis: 1337, rpc: 1 }));
}

#[test]
fn a_text_that_is_no_genesis_file() {
    for text in ["", "{", "3", r#"{"config": {"chainId": "x"}}"#, "{} {}"] {
        let error = chain_config(Some(text), 1).unwrap_err();
        assert!(matches!(error, ChainError::NoGenesis(_)), "{text}");
        assert_eq!(error.message("g.json"), "failed to deserialize genesis file at g.json");
    }
    let fault = serde_json::from_str::<u8>("x").unwrap_err();
    let line = fault.to_string();
    match choose_config(Some(Err(fault)), 1) {
        Err(ChainError::NoGenesis(error)) => assert_eq!(error.to_string(), line),
        _ => panic!(),
    }
    assert_eq!(unreadable_genesis_message("g.json"), "failed to read genesis file at g.json");
}
