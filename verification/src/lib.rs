//! Voting state of a shielded-pool wallet: the tables that hold rounds,
//! delegation bundles, votes and helper shares, and the rules that read and
//! change them.

pub mod bytes;
pub mod precompute;
pub mod storage;
pub mod text;
pub mod transport;
pub mod types;
