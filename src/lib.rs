//! Move relay for two-player turn-based games: side assignment, the wire
//! format of moves, and the turn discipline of the relay and of each peer.
pub mod channel;
pub mod codec;
pub mod lobby;
pub mod peer;
pub mod relay;
pub mod side;
