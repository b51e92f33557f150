//! Core of a multiplayer game-hosting runtime: the delta codec, the rate
//! meter, the wire messages, and the decision logic of instances, the lobby
//! and client sessions.
use vstd::prelude::*;

pub mod client;
pub mod delta;
pub mod meter;
pub mod protocol;
pub mod server;
pub mod instance;
pub mod lobby;
pub mod session;
pub mod thing;

verus! {

/// Number of microseconds between two ticks at `tick_rate` ticks per second.
pub fn tick_period_micros(tick_rate: u64) -> (r: u64)
    requires
        tick_rate > 0,
    ensures
        r == 1_000_000int / (tick_rate as int),
{
    1_000_000 / tick_rate
}

} // verus!
