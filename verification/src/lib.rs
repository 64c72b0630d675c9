//! The verified core of an agent that a wake-on-LAN controller drives remotely.

use vstd::prelude::*;

pub mod clock;
pub mod commands;
pub mod conduct;
pub mod config;
pub mod connector;
pub mod endpoint;
pub mod envelope;
pub mod login;
pub mod machine;
pub mod power;
pub mod state;
pub mod text;
pub mod wake;

verus! {

} // verus!
