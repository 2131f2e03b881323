//! A timed election with up to four candidates, as a state-transition engine.
//!
//! An election is opened by [`start_election`], advanced by [`vote`], which
//! adds a weighted ballot to one counter and says which stake has to move, and
//! gated for teardown by [`close_election`]. The engine holds no storage and
//! reads no clock: the host hands it the record and the current time, and
//! carries out the transfer that a vote returns.

pub mod address;
pub mod ballot;
pub mod clock;
pub mod close;
pub mod errors;
pub mod laws;
pub mod open;
pub mod record;
pub mod transfer;

pub use address::{election_address, ELECTION_SEED};
pub use ballot::{find_candidate, vote};
pub use clock::{elapsed_hours, has_expired};
pub use close::close_election;
pub use errors::Errors;
pub use open::start_election;
pub use record::{required_space, Election, INIT_SPACE, MAX_CANDIDATES, MAX_DESC_LEN, MAX_NAME_LEN};
pub use transfer::Transfer;
