//! The SRAM page plan that persistent values are bound to.

use vstd::prelude::*;
use crate::ids::{CommitGroupId, Hash256, PageId, SequenceStreamId, ValueId};

verus! {

/// Byte layout of one persistent SRAM page.
#[derive(Clone, Copy, Debug, PartialEq, Eq, Structural, Hash)]
pub struct PersistentPageGeometry {
    pub header_bytes: u16,
    pub payload_bytes: u32,
    pub commit_word_bytes: u16,
    pub alignment: u16,
}

/// A persistent value bound to a page of a sequence stream.
#[derive(Clone, Copy, Debug, PartialEq, Eq, Structural, Hash)]
pub struct SramPageBinding {
    pub binding_id: ValueId,
    pub page: PageId,
    pub commit_group: CommitGroupId,
    pub payload_bytes: u32,
    pub geometry: PersistentPageGeometry,
    pub sequence_stream: SequenceStreamId,
}

/// The SRAM page plan: its bindings, its page geometry, and its self hash.
#[derive(Clone, Debug, PartialEq, Eq)]
pub struct SramPagePlan {
    pub bindings: Vec<SramPageBinding>,
    pub geometry: PersistentPageGeometry,
    pub sram_page_plan_self_hash: Hash256,
}

} // verus!
