//! Report rows of ROM placement: bank assignments, thunks, global constraint
//! statuses and address-map symbols and provenance summaries. They are kept
//! as row lists so that canonical JSON readers see no map-key encodings.

use vstd::prelude::*;

verus! {

/// Where one section was placed.
#[derive(Clone, Debug, PartialEq, Eq, PartialOrd, Ord)]
pub struct BankAssignment {
    pub section_id: u32,
    pub role: String,
    pub bank: String,
    pub cpu_start: u16,
    pub final_size: u16,
}

/// One far-call thunk of the placed ROM.
#[derive(Clone, Debug, PartialEq, Eq)]
pub struct ThunkReportEntry {
    pub thunk_symbol: String,
    pub target: String,
    pub callee_bank: String,
    pub target_cpu_addr: u16,
    pub lease_chain: Vec<u32>,
}

/// Whether a global placement rule holds.
#[derive(Clone, Copy, Debug, PartialEq, Eq, Structural)]
pub enum ConstraintStatus {
    Holds,
    Violated,
}

/// The status of one named global placement rule.
#[derive(Clone, Debug, PartialEq, Eq)]
pub struct PlacedRomConstraintStatus {
    pub rule: String,
    pub status: ConstraintStatus,
}

/// What the items of a section came from: how many there are, and the
/// distinct stages and source ops that produced them, in sorted order.
#[derive(Clone, Debug, PartialEq, Eq)]
pub struct AddressMapProvenanceSummary {
    pub item_count: usize,
    pub stages: Vec<String>,
    pub source_ops: Vec<String>,
}

impl AddressMapProvenanceSummary {
    /// The summary of a section with no items.
    pub fn empty() -> (summary: Self)
        ensures
            summary.item_count == 0,
            summary.stages@.len() == 0,
            summary.source_ops@.len() == 0,
    {
        AddressMapProvenanceSummary { item_count: 0, stages: Vec::new(), source_ops: Vec::new() }
    }
}

/// A symbol of the address map, at an offset into its section.
#[derive(Clone, Debug, PartialEq, Eq)]
pub struct AddressMapSymbol {
    pub name: String,
    pub section_id: u32,
    pub offset: u32,
}

} // verus!
