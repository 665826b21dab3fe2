//! A typed pool of worker schedulers.
//!
//! Each scheduler owns a small group of worker threads whose busy state is a
//! `u8` bit mask, and the schedulers pass a single "your turn" token around a
//! ring that holds one slot for every scheduler of the process.  A job for a
//! data type goes to the first token holder among the schedulers registered
//! for that type, which hands it to its lowest free worker as a packed
//! command word, or passes the token on when every worker is busy.  The
//! ring is a value that the caller keeps once for the whole process and
//! hands to every pool.
//!
//! Everything that decides something (the masks, the command words, the token
//! ring, the registry of schedulers by type) is verified here; threads,
//! channels and closures live with the caller.

pub mod bits;
pub mod commands;
pub mod worker;
pub mod scheduler;
pub mod registry;
pub mod pool;
pub mod from_bytes;
