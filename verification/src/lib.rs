//! Probing a list of candidate addresses for Minecraft servers.
//!
//! The crate holds the decisions of a scan: how a target list is split among a
//! bounded pool of workers ([`partition`]), how one probe moves from
//! connecting to a result ([`Probe`]), how a raw status response becomes a
//! [`ServerStatus`], how a worker goes through its group ([`Worker`]), and how
//! the workers' findings are put together ([`aggregate`]). Connecting, waiting
//! and running tasks side by side are left to the caller, who feeds the
//! outcomes back in; [`scan_with`] and [`probe_with`] do the whole of it on
//! the calling thread, with the outside work handed in as functions.
//!
//! Everything here is proved against its contract, with one exception: what
//! the `uuid` crate reads from a player's identifier is taken on trust and
//! only given a name (see [`player_id`]).

pub mod order;
pub mod partition;
pub mod player_id;
pub mod probe;
pub mod response;
pub mod scan;
pub mod status;
pub mod target;
pub mod worker;

pub use partition::{effective_workers, partition};
pub use probe::{probe_with, ConnectOutcome, Probe, ProbeAction, ProbeError, ProbeEvent, ProbeState,
    QueryOutcome};
pub use response::{Description, RawPlayers, RawStatusResponse, SampleEntry};
pub use scan::{aggregate, scan_with};
pub use status::{PlayerSample, ServerStatus};
pub use target::ScanTarget;
pub use worker::Worker;
