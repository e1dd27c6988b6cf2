//! Verified core of hyprpilot: the decisions it takes about a Hyprland
//! desktop, free of the processes and sockets that carry them out.
use vstd::prelude::*;

pub mod text;
pub mod json;
pub mod error;
pub mod hypr;
pub mod keys;
pub mod guard;
pub mod path;
pub mod host;
pub mod session;
pub mod isolated;
pub mod capture;
pub mod pointer;
pub mod cli;
pub mod command_line;
pub mod goal;
pub mod skills;
pub mod exercises;

verus! {

} // verus!
