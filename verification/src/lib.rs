//! Market metadata for the Drift protocol.
//!
//! The markets of a network are described by two bundled texts, one for the
//! spot markets and one for the perpetual markets. The texts are almost
//! JSON: the [`normalizer`] rewrites them into strict JSON, [`json`] reads
//! that into a tree, [`decode`] reads the tree into [`markets`], and the
//! [`registry`] holds the markets, each under its index. Apart from that,
//! [`addresses`] gives the protocol's fixed and derived addresses.
//!
//! Every function is verified against its contract. The calls into other
//! crates are gathered in [`outside`]; what is assumed of them is written
//! there and nowhere else.

pub mod addresses;
pub mod decode;
pub mod json;
pub mod markets;
pub mod normalizer;
pub mod numeral;
pub mod outside;
pub mod registry;
pub mod text;
pub mod types;
