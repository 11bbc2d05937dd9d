//! A candidate address handed over by a network sweep.

use vstd::prelude::*;

verus! {

/// One address to probe, with the moment the sweep found it.
///
/// The time stamp is carried along as text and never interpreted.
#[derive(Debug, Clone, PartialEq, Eq)]
pub struct ScanTarget {
    pub address: String,
    pub discovered_at: String,
}

/// What a [`ScanTarget`] says, as plain sequences of characters.
pub struct TargetModel {
    pub address: Seq<char>,
    pub discovered_at: Seq<char>,
}

impl View for ScanTarget {
    type V = TargetModel;

    open spec fn view(&self) -> TargetModel {
        TargetModel { address: self.address@, discovered_at: self.discovered_at@ }
    }
}

impl ScanTarget {
    /// A target for `address`, found at `discovered_at`.
    pub fn new(address: String, discovered_at: String) -> (target: ScanTarget)
        ensures
            target.address == address,
            target.discovered_at == discovered_at,
            target@ == (TargetModel { address: address@, discovered_at: discovered_at@ }),
    {
        ScanTarget { address, discovered_at }
    }
}

} // verus!
