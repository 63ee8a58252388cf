//! Room bookkeeping, signalling decisions and link state for a small
//! peer-to-peer voice chat: a relay server keeps a fixed set of rooms,
//! desktop clients join them and negotiate direct audio links with each
//! other. Sockets, the session engine, audio devices, the codec and the
//! window stand outside this library and follow its decisions.

pub mod audio;
pub mod client;
pub mod frontend;
pub mod identity;
pub mod peer;
pub mod protocol;
pub mod server;
pub mod utility;
