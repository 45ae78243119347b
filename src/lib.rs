//! Lightning Network value types: a bounded millisatoshi [`Amount`] and a peer
//! address [`P2PAddress`] of the form `node_id@host:port`.
//!
//! Both types parse from and format to a canonical text form; the contracts of
//! the parsers and formatters are stated over the views of the values and over
//! the characters of the text.

pub mod amount;
pub mod node_id;
pub mod p2p_address;
pub mod text;

pub use amount::Amount;
pub use node_id::NodeId;
pub use p2p_address::P2PAddress;
