//! Stream resolution: provider path decoding, reading provider responses
//! into playable links, choosing the link to play, and the decisions around
//! launching the player.

pub mod cipher;
pub mod decrypt;
pub mod links;
pub mod mpv;
pub mod select;
pub mod sources;

pub use cipher::{decipher_hex_pair, hex_decipher};
pub use links::{expand_wixmp, extract_between};
