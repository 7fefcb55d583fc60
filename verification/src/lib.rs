//! The verified logic of a set of tools around execution witnesses of Ethereum blocks:
//!
//! - a generator that fetches blocks with their witnesses from an RPC endpoint, in runs that can
//!   be resumed, and keeps metrics of them: [`source`], [`headers`], [`chain`], [`blocks`],
//!   [`start`], [`run`], [`metrics`] and [`resume`];
//! - a scan for fixtures whose witness lacks the root node of the state trie: [`scan`];
//! - a server that validates posted or loaded fixtures: [`fixtures`], [`response`] and [`info`].
//!
//! They share [`bytes`], [`category`], [`progress`], [`ratio`] and [`text`]. [`outside`] holds what
//! is taken on trust of other crates. The programs themselves, with all input and output, are not here.

pub mod blocks;
pub mod bytes;
pub mod category;
pub mod chain;
pub mod fixtures;
pub mod headers;
pub mod info;
pub mod metrics;
pub mod outside;
pub mod progress;
pub mod ratio;
pub mod response;
pub mod resume;
pub mod run;
pub mod scan;
pub mod source;
pub mod start;
pub mod text;
