//! Verified core of a terminal-recording editor: `.cast` document layout and
//! header rules, terminal replay snapshots, change-density scoring, export
//! pipeline decisions, sidecar resolution and session state.
use vstd::prelude::*;

pub mod activity;
pub mod cli;
pub mod cast;
pub mod desktop;
pub mod dto;
pub mod export;
pub mod frame;
pub mod paths;
pub mod session;
pub mod sidecars;
pub mod terminal;
pub mod text;

verus! {

} // verus!
