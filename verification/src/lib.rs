//! Shamash: the decision logic of an Internet connection monitor.
//!
//! The monitor pings targets in a round-robin manner, tells a dropped
//! connection to the router (a local outage) from one beyond it (an ISP
//! outage), keeps an in-memory log of each incident and hands the finished
//! log back to be saved once the connection is back.
//!
//! Everything that touches the outside world (pinging, sleeping, the clock,
//! files, signals) is left to the program around this library: the library
//! says which probe to run next and what to do with its answer.
use vstd::prelude::*;

pub mod config;
pub mod log;
pub mod probe;
pub mod snmp;
pub mod states;
pub mod traffic;

verus! {

/// The index that follows `index` in a ring of `len` slots.
pub fn next_index(index: usize, len: usize) -> (next: usize)
    requires
        len > 0,
        index < usize::MAX,
    ensures
        next == (index + 1) % (len as int),
        next < len,
{
    (index + 1) % len
}

} // verus!
