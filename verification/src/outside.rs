//! The outside functions that the library calls, and what it takes them to do.

use vstd::prelude::*;
use vstd::utf8::encode_utf8;

use crate::chain::{network_of, Network};

verus! {

/// A header name of the `http` crate.
#[verifier::external_type_specification]
#[verifier::external_body]
pub struct ExHeaderName(http::HeaderName);

/// A header value of the `http` crate.
#[verifier::external_type_specification]
#[verifier::external_body]
pub struct ExHeaderValue(http::HeaderValue);

/// The `http` crate's refusal of a header name.
#[verifier::external_type_specification]
#[verifier::external_body]
pub struct ExInvalidHeaderName(http::header::InvalidHeaderName);

/// The `http` crate's refusal of a header value.
#[verifier::external_type_specification]
#[verifier::external_body]
pub struct ExInvalidHeaderValue(http::header::InvalidHeaderValue);

/// The `http` crate's refusal of an entry for which a header map has no room.
#[verifier::external_type_specification]
#[verifier::external_body]
pub struct ExMaxSizeReached(http::header::MaxSizeReached);

/// The header map of the `http` crate.
#[verifier::external_type_specification]
#[verifier::external_body]
#[verifier::reject_recursive_types(T)]
pub struct ExHeaderMap<T>(http::HeaderMap<T>);

/// The text of a header name.
pub uninterp spec fn header_name_text(name: http::HeaderName) -> Seq<char>;

/// The bytes of a header value.
pub uninterp spec fn header_value_bytes(value: http::HeaderValue) -> Seq<u8>;

/// What a header map holds: for each name's text, the bytes of its values in the order in which
/// they were added.
pub uninterp spec fn header_entries(map: http::HeaderMap<http::HeaderValue>) -> Map<
    Seq<char>,
    Seq<Seq<u8>>,
>;

/// The contents of a header map without entries.
pub open spec fn no_headers() -> Map<Seq<char>, Seq<Seq<u8>>> {
    Map::empty()
}

/// `HeaderMap::new` of the `http` crate: a map that holds nothing.
#[verifier::external_body]
pub(crate) fn new_header_map() -> (result: http::HeaderMap<http::HeaderValue>)
    ensures
        header_entries(result) == no_headers(),
{
    http::HeaderMap::new()
}

/// `HeaderMap::try_insert` of the `http` crate: the name is left with this one value, whatever it
/// had before, and every other name keeps its values. A map has room for a bounded number of
/// names. How many that is depends on how their hashes collide, but the first 6554 always find
/// room. A refusal leaves the contents as they were.
#[verifier::external_body]
pub(crate) fn insert_header(
    map: &mut http::HeaderMap<http::HeaderValue>,
    name: http::HeaderName,
    value: http::HeaderValue,
) -> (result: Result<(), http::header::MaxSizeReached>)
    ensures
        result is Ok ==> header_entries(*final(map)) == header_entries(*old(map)).insert(
            header_name_text(name),
            seq![header_value_bytes(value)],
        ),
        result is Err ==> header_entries(*final(map)) == header_entries(*old(map)),
        header_entries(*old(map)).dom().len() <= 6553 ==> result is Ok,
{
    match map.try_insert(name, value) {
        Ok(_) => Ok(()),
        Err(error) => Err(error),
    }
}

/// A character that may stand in a header name.
pub open spec fn is_token_char(c: char) -> bool {
    ||| 'a' <= c <= 'z'
    ||| 'A' <= c <= 'Z'
    ||| '0' <= c <= '9'
    ||| c == '!' || c == '#' || c == '$' || c == '%' || c == '&' || c == '\'' || c == '*'
    ||| c == '+' || c == '-' || c == '.' || c == '^' || c == '_' || c == '`' || c == '|'
    ||| c == '~'
}

/// A text that is a header name: 1 to 65535 characters, each of which may stand in one.
pub open spec fn is_header_name(s: Seq<char>) -> bool {
    &&& 1 <= s.len() <= 65535
    &&& forall|i: int| 0 <= i < s.len() ==> is_token_char(#[trigger] s[i])
}

/// A text with the letters A to Z in lower case.
pub open spec fn lower_case(s: Seq<char>) -> Seq<char> {
    s.map_values(
        |c: char|
            if 'A' <= c <= 'Z' {
                (c as u32 + 32) as char
            } else {
                c
            },
    )
}

/// A text that is a header value: no control character but the tab.
pub open spec fn is_header_value(s: Seq<char>) -> bool {
    forall|i: int|
        0 <= i < s.len() ==> (#[trigger] s[i] == '\t' || (s[i] >= ' ' && s[i] as u32 != 127))
}

/// `HeaderName`'s `FromStr` of the `http` crate: accepts the header names and puts their letters
/// in lower case.
#[verifier::external_body]
pub(crate) fn header_name(s: &str) -> (result: Result<
    http::HeaderName,
    http::header::InvalidHeaderName,
>)
    ensures
        result is Ok <==> is_header_name(s@),
        result matches Ok(name) ==> header_name_text(name) == lower_case(s@),
{
    s.parse::<http::HeaderName>()
}

/// `HeaderValue`'s `FromStr` of the `http` crate: accepts the header values and keeps their bytes.
#[verifier::external_body]
pub(crate) fn header_value(s: &str) -> (result: Result<
    http::HeaderValue,
    http::header::InvalidHeaderValue,
>)
    ensures
        result is Ok <==> is_header_value(s@),
        result matches Ok(value) ==> header_value_bytes(value) == encode_utf8(s@),
{
    s.parse::<http::HeaderValue>()
}

/// `Chain::from_id` and `Chain::named` of the `alloy_chains` crate: the four networks below are
/// named for these chain IDs and for no others.
#[verifier::external_body]
pub(crate) fn named_network(chain_id: u64) -> (result: Option<Network>)
    ensures
        result == network_of(chain_id),
{
    match alloy_chains::Chain::from_id(chain_id).named() {
        Some(alloy_chains::NamedChain::Mainnet) => Some(Network::Mainnet),
        Some(alloy_chains::NamedChain::Sepolia) => Some(Network::Sepolia),
        Some(alloy_chains::NamedChain::Hoodi) => Some(Network::Hoodi),
        Some(alloy_chains::NamedChain::Holesky) => Some(Network::Holesky),
        _ => None,
    }
}

/// The chain configuration of the `alloy_genesis` crate.
#[verifier::external_type_specification]
#[verifier::external_body]
pub struct ExChainConfig(alloy_genesis::ChainConfig);

/// The `serde_json` crate's refusal of a text.
#[verifier::external_type_specification]
#[verifier::external_body]
pub struct ExJsonError(serde_json::Error);

/// The chain configuration in the genesis file with this text, behind its chain ID, or the reason
/// why the text is no genesis file.
pub uninterp spec fn genesis_config(text: Seq<char>) -> Result<
    (u64, alloy_genesis::ChainConfig),
    serde_json::Error,
>;

/// `from_str` of the `serde_json` crate for `Genesis` of the `alloy_genesis` crate, of whose result
/// only the field `config` is kept, behind its field `chain_id`. It depends on the text alone, and
/// so does the refusal.
#[verifier::external_body]
pub(crate) fn parse_genesis(text: &str) -> (result: Result<
    (u64, alloy_genesis::ChainConfig),
    serde_json::Error,
>)
    ensures
        result == genesis_config(text@),
{
    match serde_json::from_str::<alloy_genesis::Genesis>(text) {
        Ok(genesis) => Ok((genesis.config.chain_id, genesis.config)),
        Err(error) => Err(error),
    }
}

/// The `alloy_rlp` crate's refusal of bytes that it cannot decode.
#[verifier::external_type_specification]
#[verifier::external_body]
pub struct ExRlpError(alloy_rlp::Error);

/// The Keccak-256 digest of some bytes.
pub uninterp spec fn keccak256_digest(bytes: Seq<u8>) -> Seq<u8>;

/// The state root in the block header that some bytes begin with, if they do.
pub uninterp spec fn header_state_root(bytes: Seq<u8>) -> Option<Seq<u8>>;

/// `keccak256` of the `alloy_primitives` crate: the Keccak-256 digest of the bytes.
#[verifier::external_body]
pub(crate) fn keccak256(bytes: &[u8]) -> (result: [u8; 32])
    ensures
        result@ == keccak256_digest(bytes@),
{
    alloy_primitives::keccak256(bytes).0
}

/// `Header::decode` of the `alloy_consensus` crate, of whose result only the state root is kept. It
/// depends on the bytes alone. Nothing is said of which error refuses bytes that hold no header:
/// for a length that is too large, that differs with the machine's word size.
#[verifier::external_body]
pub(crate) fn decode_state_root(bytes: &[u8]) -> (result: Result<[u8; 32], alloy_rlp::Error>)
    ensures
        result is Ok <==> header_state_root(bytes@) is Some,
        result matches Ok(root) ==> header_state_root(bytes@) == Some(root@),
{
    let mut rest: &[u8] = bytes;
    match <alloy_consensus::Header as alloy_rlp::Decodable>::decode(&mut rest) {
        Ok(header) => Ok(header.state_root.0),
        Err(error) => Err(error),
    }
}

} // verus!
