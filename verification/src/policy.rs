//! The resolved runtime budget that the planning stages read: ROM budget
//! slots and the memory caps of the runtime chrome.

use vstd::prelude::*;
use crate::ids::{CompileProfileId, Hash256, TargetProfileId};

verus! {

/// How experts are laid out across switchable ROM banks.
#[derive(Clone, Copy, Debug, PartialEq, Eq, Structural, Hash, PartialOrd, Ord)]
pub enum PlacementProfile {
    StrictOnePerBank,
    Budgeted,
    PackedExperts,
}

/// The static placement model that a profile is budgeted with.
#[derive(Clone, Copy, Debug, PartialEq, Eq, Structural, Hash)]
pub enum StaticPlacementModel {
    StrictOnePerBank,
    BudgetedFirstFit,
    PackedExpertsFirstFitDecreasing,
}

impl StaticPlacementModel {
    pub open spec fn spec_for_profile(profile: PlacementProfile) -> StaticPlacementModel {
        match profile {
            PlacementProfile::StrictOnePerBank => StaticPlacementModel::StrictOnePerBank,
            PlacementProfile::Budgeted => StaticPlacementModel::BudgetedFirstFit,
            PlacementProfile::PackedExperts => StaticPlacementModel::PackedExpertsFirstFitDecreasing,
        }
    }

    pub fn for_profile(profile: PlacementProfile) -> (model: StaticPlacementModel)
        ensures
            model == Self::spec_for_profile(profile),
    {
        match profile {
            PlacementProfile::StrictOnePerBank => StaticPlacementModel::StrictOnePerBank,
            PlacementProfile::Budgeted => StaticPlacementModel::BudgetedFirstFit,
            PlacementProfile::PackedExperts => StaticPlacementModel::PackedExpertsFirstFitDecreasing,
        }
    }
}

/// The static placement model for a placement profile.
pub fn placement_model_for_profile(profile: PlacementProfile) -> (model: StaticPlacementModel)
    ensures
        model == StaticPlacementModel::spec_for_profile(profile),
{
    StaticPlacementModel::for_profile(profile)
}

/// What a ROM budget slot may hold.
#[derive(Clone, Copy, Debug, PartialEq, Eq, Structural, Hash, PartialOrd, Ord)]
pub enum BudgetSlotClass {
    ExpertBank,
    CommonBank,
    Bank0Free,
}

#[derive(Clone, Copy, Debug, PartialEq, Eq, Structural, Hash, PartialOrd, Ord)]
pub struct BudgetSlotId(pub u16);

/// A ROM region available to the budget.
#[derive(Clone, Debug, PartialEq, Eq)]
pub struct RomBudgetSlot {
    pub id: BudgetSlotId,
    pub class: BudgetSlotClass,
    pub usable_bytes: u32,
    pub reserved_slack: u16,
    /// The profiles that may place into this slot (a set).
    pub placement_caps: Vec<PlacementProfile>,
}

/// Memory caps of the runtime chrome.
#[derive(Clone, Copy, Debug, PartialEq, Eq, Structural)]
pub struct RuntimeMemoryCapSection {
    pub wram_usable_bytes: u32,
    pub sram_usable_bytes: u32,
    pub hram_usable_bytes: u32,
    pub source_target_profile_hash: Hash256,
}

/// The runtime chrome budget: ROM slots, memory caps, and reservations.
#[derive(Clone, Debug, PartialEq, Eq)]
pub struct RuntimeChromeBudget {
    pub target: TargetProfileId,
    pub profile: CompileProfileId,
    pub runtime_nucleus_hash: Hash256,
    pub rom_slots: Vec<RomBudgetSlot>,
    pub memory_caps: RuntimeMemoryCapSection,
    pub wram_reserved: u16,
    pub sram_reserved: u16,
}

} // verus!
