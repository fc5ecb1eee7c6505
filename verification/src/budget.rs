//! The static ROM and memory budget of a quantized graph: the bytes each
//! expert's weights take, their placement into switchable ROM banks under a
//! placement profile, the shared components in the common bank, the
//! accumulator bounds of the reduction sites, and the memory and bank-switch
//! caps.

use vstd::prelude::*;
use vstd::relations::{sorted_by, total_ordering};
use vstd::seq_lib::lemma_sorted_unique;
use crate::ids::{Hash256, KernelSpecId};
use crate::sorting::{lemma_sort_by_key_rekey, rekey, sort_by_key, stable_sort_by_key};
use crate::text::{bytes_lt, string_lt, utf8};
use crate::policy::{
    BudgetSlotClass, BudgetSlotId, PlacementProfile, RomBudgetSlot, RuntimeChromeBudget,
    StaticPlacementModel, placement_model_for_profile,
};

verus! {

broadcast use vstd::seq_lib::group_to_multiset_ensures;

#[derive(Clone, Copy, Debug, PartialEq, Eq, Structural, Hash, PartialOrd, Ord)]
pub struct LayerId(pub u16);

#[derive(Clone, Copy, Debug, PartialEq, Eq, Structural, Hash, PartialOrd, Ord)]
pub struct ExpertId(pub u16);

/// The name of a reduction site.
#[derive(Clone, Debug, PartialEq, Eq, Hash, PartialOrd, Ord)]
pub struct ReductionSiteId(pub String);

/// How ternary weights are packed.
#[derive(Clone, Copy, Debug, PartialEq, Eq, Structural, Hash)]
pub enum WeightEncoding {
    Ternary2,
    Binary1,
    SparseTernaryBitplanes,
}

/// How many scales a weight matrix carries.
#[derive(Clone, Copy, Debug, PartialEq, Eq, Structural, Hash)]
pub enum ScaleGranularity {
    PerTensor,
    PerOutputRow,
    /// One scale per `group_size` rows; the group size is never zero.
    PerGroup { group_size: u32 },
}

/// The number format of a scale.
#[derive(Clone, Copy, Debug, PartialEq, Eq, Structural, Hash)]
pub enum ScaleFormat {
    Q8_8,
    Q4_4,
    Pow2,
}

/// The packing of one expert's weight matrix, as the budget reads it.
#[derive(Clone, Copy, Debug, PartialEq, Eq, Structural, Hash)]
pub struct TernaryWeightPlan {
    pub encoding: WeightEncoding,
    pub scale_granularity: ScaleGranularity,
    pub scale_format: ScaleFormat,
}

impl TernaryWeightPlan {
    /// The plan is well formed: a group size is never zero.
    pub open spec fn well_formed(self) -> bool {
        self.scale_granularity matches ScaleGranularity::PerGroup { group_size } ==> group_size != 0
    }
}

/// The byte width of a power-of-two scale on the target; never zero.
#[derive(Clone, Copy, Debug, PartialEq, Eq, Structural, Hash)]
pub struct ScaleFormatByteWidths {
    pow2_scale_bytes: u8,
}

impl ScaleFormatByteWidths {
    pub closed spec fn spec_pow2_scale_bytes(self) -> u8 {
        self.pow2_scale_bytes
    }

    pub fn new(pow2_scale_bytes: u8) -> (widths: ScaleFormatByteWidths)
        requires
            pow2_scale_bytes != 0,
        ensures
            widths.spec_pow2_scale_bytes() == pow2_scale_bytes,
    {
        ScaleFormatByteWidths { pow2_scale_bytes }
    }

    pub fn pow2_scale_bytes(self) -> (bytes: u8)
        ensures
            bytes == self.spec_pow2_scale_bytes(),
    {
        self.pow2_scale_bytes
    }
}

impl Default for ScaleFormatByteWidths {
    /// One byte per power-of-two scale.
    fn default() -> (widths: ScaleFormatByteWidths)
        ensures
            widths.spec_pow2_scale_bytes() == 1,
    {
        ScaleFormatByteWidths { pow2_scale_bytes: 1 }
    }
}

/// Byte arithmetic that left the 64-bit budget.
#[derive(Clone, Copy, Debug, PartialEq, Eq, Structural, Hash)]
pub enum BudgetMathError {
    Overflow,
}

/// `numerator / denominator`, rounded up.
pub open spec fn ceil_div(numerator: int, denominator: int) -> int {
    (numerator + denominator - 1) / denominator
}

fn ceil_div_u64(numerator: u64, denominator: u64) -> (quotient: u64)
    requires
        denominator > 0,
    ensures
        quotient == ceil_div(numerator as int, denominator as int),
{
    let q = numerator / denominator;
    if numerator % denominator == 0 {
        proof {
            assert(ceil_div(numerator as int, denominator as int) == q) by (nonlinear_arith)
                requires
                    denominator > 0,
                    q == numerator / denominator,
                    numerator % denominator == 0,
            ;
        }
        q
    } else {
        proof {
            assert(ceil_div(numerator as int, denominator as int) == q + 1 && q < u64::MAX)
                by (nonlinear_arith)
                requires
                    denominator > 0,
                    q == numerator / denominator,
                    numerator % denominator != 0,
            ;
        }
        q + 1
    }
}

/// The bytes a `rows` x `cols` matrix takes in `encoding`.
pub open spec fn spec_weight_bytes(rows: u32, cols: u32, encoding: WeightEncoding) -> int {
    let count = rows * cols;
    match encoding {
        WeightEncoding::Ternary2 => ceil_div(count, 4),
        WeightEncoding::Binary1 => ceil_div(count, 8),
        WeightEncoding::SparseTernaryBitplanes => 2 * ceil_div(count, 8),
    }
}

/// The weight bytes: two bits per ternary weight, one bit per binary
/// weight, or two bit planes of one bit each.
pub fn weight_bytes(rows: u32, cols: u32, encoding: WeightEncoding) -> (bytes: Result<u64, BudgetMathError>)
    ensures
        bytes == Ok::<u64, BudgetMathError>(spec_weight_bytes(rows, cols, encoding) as u64),
        spec_weight_bytes(rows, cols, encoding) <= 0x4000_0000_0000_0000,
{
    proof {
        assert(rows * cols <= 0xffff_ffff * 0xffff_ffff) by (nonlinear_arith)
            requires
                rows <= 0xffff_ffff,
                cols <= 0xffff_ffff,
        ;
    }
    let count: u64 = rows as u64 * cols as u64;
    match encoding {
        WeightEncoding::Ternary2 => Ok(ceil_div_u64(count, 4)),
        WeightEncoding::Binary1 => Ok(ceil_div_u64(count, 8)),
        WeightEncoding::SparseTernaryBitplanes => {
            let planes = ceil_div_u64(count, 8);
            Ok(planes + planes)
        },
    }
}

/// The bytes of one scale in `format`.
pub open spec fn spec_scale_format_bytes(format: ScaleFormat, widths: ScaleFormatByteWidths) -> u8 {
    match format {
        ScaleFormat::Q8_8 => 2,
        ScaleFormat::Q4_4 => 1,
        ScaleFormat::Pow2 => widths.spec_pow2_scale_bytes(),
    }
}

pub fn scale_format_bytes(format: ScaleFormat, widths: ScaleFormatByteWidths) -> (bytes: u8)
    ensures
        bytes == spec_scale_format_bytes(format, widths),
{
    match format {
        ScaleFormat::Q8_8 => 2,
        ScaleFormat::Q4_4 => 1,
        ScaleFormat::Pow2 => widths.pow2_scale_bytes(),
    }
}

/// The number of scales of a `rows`-row matrix.
pub open spec fn spec_scale_count(rows: u32, granularity: ScaleGranularity) -> int {
    match granularity {
        ScaleGranularity::PerTensor => 1,
        ScaleGranularity::PerOutputRow => rows as int,
        ScaleGranularity::PerGroup { group_size } => ceil_div(rows as int, group_size as int),
    }
}

/// The scale bytes: one scale per tensor, per output row, or per group of rows.
pub fn scale_bytes(
    rows: u32,
    granularity: ScaleGranularity,
    format: ScaleFormat,
    widths: ScaleFormatByteWidths,
) -> (bytes: Result<u64, BudgetMathError>)
    requires
        granularity matches ScaleGranularity::PerGroup { group_size } ==> group_size != 0,
    ensures
        bytes == Ok::<u64, BudgetMathError>(
            (spec_scale_count(rows, granularity) * spec_scale_format_bytes(format, widths)) as u64,
        ),
        spec_scale_count(rows, granularity) * spec_scale_format_bytes(format, widths) <= 0xff * 0xffff_ffff,
{
    let count: u64 = match granularity {
        ScaleGranularity::PerTensor => 1,
        ScaleGranularity::PerOutputRow => rows as u64,
        ScaleGranularity::PerGroup { group_size } => ceil_div_u64(rows as u64, group_size as u64),
    };
    let width = scale_format_bytes(format, widths) as u64;
    proof {
        if let ScaleGranularity::PerGroup { group_size } = granularity {
            assert(ceil_div(rows as int, group_size as int) <= rows) by (nonlinear_arith)
                requires
                    group_size >= 1,
                    rows >= 0,
            ;
        }
        assert(count * width <= 0xff * 0xffff_ffff) by (nonlinear_arith)
            requires
                count <= 0xffff_ffff,
                width <= 0xff,
        ;
    }
    Ok(count * width)
}

/// One expert of the quantized graph, as the budget sees it.
#[derive(Clone, Copy, Debug, PartialEq, Eq, Structural, Hash)]
pub struct ExpertProjection {
    pub layer: LayerId,
    pub expert: ExpertId,
    pub rows: u32,
    pub cols: u32,
    pub metadata_bytes: u32,
    pub plan: TernaryWeightPlan,
}

/// The ROM bytes of one expert: weights, scales and metadata.
pub open spec fn spec_expert_payload_bytes(expert: ExpertProjection, widths: ScaleFormatByteWidths) -> int {
    spec_weight_bytes(expert.rows, expert.cols, expert.plan.encoding) + spec_scale_count(
        expert.rows,
        expert.plan.scale_granularity,
    ) * spec_scale_format_bytes(expert.plan.scale_format, widths) + expert.metadata_bytes
}

/// `left + right` in the byte budget, refused when it overflows.
pub fn checked_add_byte_budget(left: u64, right: u64) -> (sum: Result<u64, BudgetMathError>)
    ensures
        left + right <= u64::MAX ==> sum == Ok::<u64, BudgetMathError>((left + right) as u64),
        left + right > u64::MAX ==> sum == Err::<u64, BudgetMathError>(BudgetMathError::Overflow),
{
    match left.checked_add(right) {
        Some(sum) => Ok(sum),
        None => Err(BudgetMathError::Overflow),
    }
}

/// The payload of `expert` under the scale widths of a target.
pub fn expert_payload_bytes_with_widths(
    expert: &ExpertProjection,
    widths: ScaleFormatByteWidths,
) -> (bytes: Result<u64, BudgetMathError>)
    requires
        expert.plan.well_formed(),
    ensures
        bytes == Ok::<u64, BudgetMathError>(spec_expert_payload_bytes(*expert, widths) as u64),
        spec_expert_payload_bytes(*expert, widths) <= u64::MAX,
{
    let weights = weight_bytes(expert.rows, expert.cols, expert.plan.encoding)?;
    let scales = scale_bytes(expert.rows, expert.plan.scale_granularity, expert.plan.scale_format, widths)?;
    let sum = checked_add_byte_budget(weights, scales)?;
    checked_add_byte_budget(sum, expert.metadata_bytes as u64)
}

/// The payload of `expert` with one-byte power-of-two scales.
pub fn expert_payload_bytes(expert: &ExpertProjection) -> (bytes: Result<u64, BudgetMathError>)
    requires
        expert.plan.well_formed(),
    ensures
        forall|widths: ScaleFormatByteWidths|
            widths.spec_pow2_scale_bytes() == 1 ==> bytes == Ok::<u64, BudgetMathError>(
                #[trigger] spec_expert_payload_bytes(*expert, widths) as u64,
            ),
{
    expert_payload_bytes_with_widths(expert, ScaleFormatByteWidths::default())
}

/// `value` as a `u32`, if it fits.
pub fn u32_byte_budget(value: u64) -> (narrowed: Result<u32, BudgetMathError>)
    ensures
        value <= u32::MAX ==> narrowed == Ok::<u32, BudgetMathError>(value as u32),
        value > u32::MAX ==> narrowed == Err::<u32, BudgetMathError>(BudgetMathError::Overflow),
{
    if value <= u32::MAX as u64 {
        Ok(value as u32)
    } else {
        Err(BudgetMathError::Overflow)
    }
}

/// The bytes of a ROM slot left once its slack is reserved; negative when
/// the slack exceeds the slot.
pub fn rom_slot_effective_cap_bytes(slot: &RomBudgetSlot) -> (cap: i64)
    ensures
        cap == slot.usable_bytes - slot.reserved_slack,
{
    slot.usable_bytes as i64 - slot.reserved_slack as i64
}

/// `residual` clamped into `i32`.
pub open spec fn spec_residual_i32(residual: int) -> i32 {
    if residual > i32::MAX {
        i32::MAX
    } else if residual < i32::MIN {
        i32::MIN
    } else {
        residual as i32
    }
}

pub fn residual_i32(residual: i64) -> (clamped: i32)
    ensures
        clamped == spec_residual_i32(residual as int),
{
    if residual > i32::MAX as i64 {
        i32::MAX
    } else if residual < i32::MIN as i64 {
        i32::MIN
    } else {
        residual as i32
    }
}


// --------------------------------------------------------------- failures

#[derive(Clone, Copy, Debug, PartialEq, Eq, Structural, Hash)]
pub enum PlacementInfeasibilityReason {
    NoSlotsForClass,
    ExpertCountExceedsSlots,
    RequiresUnavailableSlotClass,
}

#[derive(Clone, Copy, Debug, PartialEq, Eq, Structural, Hash)]
pub enum ExpertPlacementStatus {
    Assigned,
    AssignedOverCap,
    UnassignedNoEligibleSlots,
    UnassignedStrictDistinctSlotsExhausted,
}

#[derive(Clone, Copy, Debug, PartialEq, Eq, Structural, Hash)]
pub enum UnassignedBecause {
    NoEligibleSlots,
    StrictDistinctSlotsExhausted,
}

/// How a projected switch count was derived.
#[derive(Clone, Copy, Debug, PartialEq, Eq, Structural, Hash)]
pub enum SwitchProjectionSource {
    ConservativeStaticUpperBound,
    HintWeightedExpectedWithStaticCap,
}

/// Where a projected memory size comes from.
#[derive(Clone, Copy, Debug, PartialEq, Eq, Structural, Hash)]
pub enum ProjectedSizeSource {
    StaticGraphProjection,
    HintBundleConstraint,
    CalibrationSamplingClosedForm,
}

/// The field of the budget view that a malformed-view failure points at.
#[derive(Clone, Copy, Debug, PartialEq, Eq, Structural, Hash)]
pub enum BudgetField {
    QuantGraphSemanticCoreHash,
    BudgetViewSemanticCoreHash,
    Layers,
    Experts,
    SharedKernels,
    SharedLuts,
    ReductionSites,
    ExpertLayer { index: u64 },
    ExpertRows { index: u64 },
    ExpertCols { index: u64 },
    ExpertPayloadBytes { index: u64 },
    ReductionSiteTermCount { index: u64 },
    ReductionSiteProjectedMaxAbs { index: u64 },
    CommonBankFootprintAggregate,
}

/// Why a graph does not fit its static budget.
#[derive(Clone, Debug, PartialEq, Eq)]
pub enum BudgetFailure {
    MissingRuntimeChromeBudget,
    QuantGraphBudgetViewMalformed { field: BudgetField },
    PlacementProfileInfeasible { profile: PlacementProfile, reason: PlacementInfeasibilityReason },
    ExpertExceedsSlot {
        layer: LayerId,
        expert: ExpertId,
        slot: BudgetSlotId,
        payload_bytes: u32,
        cap_bytes: u32,
        excess_bytes: u32,
    },
    CommonBankExceedsCap { assigned_bytes: u32, cap_bytes: u32, excess_bytes: u32 },
    WramPeakExceedsCap { peak: u32, cap: u32 },
    SramPeakExceedsCap { peak: u32, cap: u32 },
    HramPeakExceedsCap { peak: u32, cap: u32 },
    BankSwitchesPerTokenOverCap {
        decision_value: u16,
        upper_bound: u16,
        cap: u16,
        source: SwitchProjectionSource,
    },
    SramPageSwitchesPerTokenOverCap {
        decision_value: u16,
        upper_bound: u16,
        cap: u16,
        source: SwitchProjectionSource,
    },
    AccumulatorExceedsI32 { site: ReductionSiteId, projected_max_abs: u64 },
}

/// What a ROM bank holds.
#[derive(Clone, Debug, PartialEq, Eq)]
pub enum BudgetComponentRef {
    Expert { layer: LayerId, expert: ExpertId },
    SharedKernel { id: KernelSpecId },
    SharedLut { id: String },
    SharedDenseFfn,
}

/// The occupancy of one ROM budget slot.
#[derive(Clone, Debug, PartialEq, Eq)]
pub struct PerBankEntry {
    pub slot: BudgetSlotId,
    pub class: BudgetSlotClass,
    pub usable_bytes: u32,
    pub reserved_slack: u16,
    pub effective_cap_bytes: i64,
    pub assigned_bytes: u32,
    pub residual_bytes: i32,
    pub assigned_components: Vec<BudgetComponentRef>,
    pub placement_caps: Vec<PlacementProfile>,
}

/// A ROM budget slot's occupancy as values.
pub struct PerBankEntryView {
    pub slot: BudgetSlotId,
    pub class: BudgetSlotClass,
    pub usable_bytes: u32,
    pub reserved_slack: u16,
    pub effective_cap_bytes: i64,
    pub assigned_bytes: u32,
    pub residual_bytes: i32,
    pub assigned_components: Seq<BudgetComponentRef>,
    pub placement_caps: Seq<PlacementProfile>,
}

impl View for PerBankEntry {
    type V = PerBankEntryView;

    open spec fn view(&self) -> PerBankEntryView {
        PerBankEntryView {
            slot: self.slot,
            class: self.class,
            usable_bytes: self.usable_bytes,
            reserved_slack: self.reserved_slack,
            effective_cap_bytes: self.effective_cap_bytes,
            assigned_bytes: self.assigned_bytes,
            residual_bytes: self.residual_bytes,
            assigned_components: self.assigned_components@,
            placement_caps: self.placement_caps@,
        }
    }
}

/// The entries of a budget table as values.
pub open spec fn entry_views(entries: Seq<PerBankEntry>) -> Seq<PerBankEntryView> {
    entries.map_values(|entry: PerBankEntry| entry@)
}

/// Where one expert's payload went.
#[derive(Clone, Copy, Debug, PartialEq, Eq, Structural)]
pub struct PerExpertEntry {
    pub layer: LayerId,
    pub expert: ExpertId,
    pub payload_bytes: u32,
    pub assigned_slot: Option<BudgetSlotId>,
    pub unassigned_because: Option<UnassignedBecause>,
    pub placement_status: ExpertPlacementStatus,
}

/// An expert payload waiting for a slot, with its row in the expert table.
#[derive(Clone, Copy, Debug, PartialEq, Eq, Structural)]
pub struct ExpertPlacementPayload {
    pub payload_index: usize,
    pub layer: LayerId,
    pub expert: ExpertId,
    pub payload_bytes: u32,
}

// -------------------------------------------------------------- placement

/// The position of the first budget slot with identifier `id`.
pub open spec fn slot_position(slots: Seq<RomBudgetSlot>, id: BudgetSlotId) -> Option<int>
    decreases slots.len(),
{
    if slots.len() == 0 {
        None
    } else {
        let earlier = slot_position(slots.drop_last(), id);
        if earlier is Some {
            earlier
        } else if slots.last().id == id {
            Some(slots.len() - 1)
        } else {
            None
        }
    }
}

/// The first budget slot with that identifier admits `profile`.
pub open spec fn spec_slot_accepts_profile(budget: RuntimeChromeBudget, slot: BudgetSlotId, profile: PlacementProfile) -> bool {
    match slot_position(budget.rom_slots@, slot) {
        Some(i) => budget.rom_slots@[i].placement_caps@.contains(profile),
        None => false,
    }
}

fn caps_contain(caps: &Vec<PlacementProfile>, profile: PlacementProfile) -> (found: bool)
    ensures
        found == caps@.contains(profile),
{
    let mut i: usize = 0;
    while i < caps.len()
        invariant
            i <= caps@.len(),
            forall|k: int| 0 <= k < i ==> caps@[k] != profile,
        decreases caps@.len() - i,
    {
        if caps[i] == profile {
            return true;
        }
        i = i + 1;
    }
    false
}

pub fn slot_accepts_profile(budget: &RuntimeChromeBudget, slot: BudgetSlotId, profile: PlacementProfile) -> (accepts: bool)
    ensures
        accepts == spec_slot_accepts_profile(*budget, slot, profile),
{
    let slots = &budget.rom_slots;
    let mut i: usize = 0;
    while i < slots.len()
        invariant
            i <= slots@.len(),
            slots == &budget.rom_slots,
            slot_position(slots@.subrange(0, i as int), slot) is None,
        decreases slots@.len() - i,
    {
        proof {
            assert(slots@.subrange(0, i + 1).drop_last() =~= slots@.subrange(0, i as int));
        }
        if slots[i].id == slot {
            proof {
                lemma_slot_position_prefix(slots@, i as int + 1, slot);
            }
            return caps_contain(&slots[i].placement_caps, profile);
        }
        i = i + 1;
    }
    proof {
        assert(slots@.subrange(0, slots@.len() as int) =~= slots@);
    }
    false
}

proof fn lemma_slot_position_prefix(slots: Seq<RomBudgetSlot>, n: int, id: BudgetSlotId)
    requires
        0 <= n <= slots.len(),
        slot_position(slots.subrange(0, n), id) is Some,
    ensures
        slot_position(slots, id) == slot_position(slots.subrange(0, n), id),
    decreases slots.len() - n,
{
    if n < slots.len() {
        assert(slots.subrange(0, n + 1).drop_last() =~= slots.subrange(0, n));
        lemma_slot_position_prefix(slots, n + 1, id);
    } else {
        assert(slots.subrange(0, n) =~= slots);
    }
}

/// The entry has room for `payload_bytes` more under its cap.
pub open spec fn spec_has_residual_capacity(entry: PerBankEntry, payload_bytes: u32) -> bool {
    entry.assigned_bytes + payload_bytes <= entry.effective_cap_bytes
}

pub fn entry_has_residual_capacity(entry: &PerBankEntry, payload_bytes: u32) -> (room: bool)
    ensures
        room == spec_has_residual_capacity(*entry, payload_bytes),
{
    (entry.assigned_bytes as i64) + (payload_bytes as i64) <= entry.effective_cap_bytes
}

/// An expert may go into the entry: an expert bank that admits the profile.
pub open spec fn expert_eligible(budget: RuntimeChromeBudget, entry: PerBankEntry, profile: PlacementProfile) -> bool {
    spec_slot_accepts_profile(budget, entry.slot, profile) && entry.class == BudgetSlotClass::ExpertBank
}

/// The entry is tried for an expert under `model`: eligible, and empty when
/// each expert must have a bank of its own.
pub open spec fn expert_considered(
    model: StaticPlacementModel,
    budget: RuntimeChromeBudget,
    entry: PerBankEntry,
    profile: PlacementProfile,
) -> bool {
    &&& expert_eligible(budget, entry, profile)
    &&& (model == StaticPlacementModel::StrictOnePerBank ==> entry.assigned_components@.len() == 0)
}

/// Why an expert found no slot with room.
#[derive(Clone, Copy, Debug, PartialEq, Eq, Structural)]
pub enum ExpertPlacementFailure {
    NoEligibleSlots,
    StrictDistinctSlotsExhausted,
    ExceedsEligibleSlotCap { slot_index: usize },
}

/// `found` is the first-fit verdict for a payload of `payload_bytes`: the
/// first slot tried with room; else the first slot tried, over its cap; else
/// exhausted distinct slots when each expert needs one; else no slot.
pub open spec fn first_fit_verdict(
    model: StaticPlacementModel,
    profile: PlacementProfile,
    budget: RuntimeChromeBudget,
    entries: Seq<PerBankEntry>,
    payload_bytes: u32,
    found: Result<usize, ExpertPlacementFailure>,
) -> bool {
    match found {
        Ok(k) => {
            &&& k < entries.len()
            &&& expert_considered(model, budget, entries[k as int], profile)
            &&& spec_has_residual_capacity(entries[k as int], payload_bytes)
            &&& forall|j: int| 0 <= j < k && #[trigger] expert_considered(model, budget, entries[j], profile) ==> !spec_has_residual_capacity(entries[j], payload_bytes)
        },
        Err(ExpertPlacementFailure::ExceedsEligibleSlotCap { slot_index }) => {
            &&& slot_index < entries.len()
            &&& expert_considered(model, budget, entries[slot_index as int], profile)
            &&& forall|j: int| 0 <= j < slot_index ==> !#[trigger] expert_considered(model, budget, entries[j], profile)
            &&& forall|j: int| 0 <= j < entries.len() && #[trigger] expert_considered(model, budget, entries[j], profile) ==> !spec_has_residual_capacity(entries[j], payload_bytes)
        },
        Err(ExpertPlacementFailure::StrictDistinctSlotsExhausted) => {
            &&& model == StaticPlacementModel::StrictOnePerBank
            &&& forall|j: int| 0 <= j < entries.len() ==> !#[trigger] expert_considered(model, budget, entries[j], profile)
            &&& exists|j: int| 0 <= j < entries.len() && #[trigger] expert_eligible(budget, entries[j], profile)
        },
        Err(ExpertPlacementFailure::NoEligibleSlots) => {
            &&& forall|j: int| 0 <= j < entries.len() ==> !#[trigger] expert_considered(model, budget, entries[j], profile)
            &&& (model == StaticPlacementModel::StrictOnePerBank ==> forall|j: int|
                0 <= j < entries.len() ==> !#[trigger] expert_eligible(budget, entries[j], profile))
        },
    }
}

/// Finds the slot for one expert payload under `model`.
pub fn first_fit_expert_slot(
    model: StaticPlacementModel,
    profile: PlacementProfile,
    budget: &RuntimeChromeBudget,
    entries: &Vec<PerBankEntry>,
    payload_bytes: u32,
) -> (found: Result<usize, ExpertPlacementFailure>)
    ensures
        found == spec_first_fit(model, profile, *budget, entry_views(entries@), payload_bytes),
        first_fit_verdict(model, profile, *budget, entries@, payload_bytes, found),
{
    let found = first_fit_scan(model, profile, budget, entries, payload_bytes);
    proof {
        lemma_first_fit_verdict_is_spec(model, profile, *budget, entries@, payload_bytes, found);
    }
    found
}

fn first_fit_scan(
    model: StaticPlacementModel,
    profile: PlacementProfile,
    budget: &RuntimeChromeBudget,
    entries: &Vec<PerBankEntry>,
    payload_bytes: u32,
) -> (found: Result<usize, ExpertPlacementFailure>)
    ensures
        first_fit_verdict(model, profile, *budget, entries@, payload_bytes, found),
{
    let mut saw_eligible = false;
    let mut saw_empty_strict = false;
    let mut first_cap_failure: Option<usize> = None;
    let mut i: usize = 0;
    while i < entries.len()
        invariant
            i <= entries@.len(),
            saw_eligible <==> exists|j: int| 0 <= j < i && #[trigger] expert_eligible(*budget, entries@[j], profile),
            saw_empty_strict <==> exists|j: int| 0 <= j < i && #[trigger] expert_considered(model, *budget, entries@[j], profile),
            forall|j: int| 0 <= j < i && #[trigger] expert_considered(model, *budget, entries@[j], profile)
                ==> !spec_has_residual_capacity(entries@[j], payload_bytes),
            first_cap_failure is None <==> !saw_empty_strict,
            first_cap_failure matches Some(f) ==> f < i && expert_considered(model, *budget, entries@[f as int], profile)
                && forall|j: int| 0 <= j < f ==> !#[trigger] expert_considered(model, *budget, entries@[j], profile),
        decreases entries@.len() - i,
    {
        let entry = &entries[i];
        if slot_accepts_profile(budget, entry.slot, profile) && entry.class == BudgetSlotClass::ExpertBank {
            assert(expert_eligible(*budget, entries@[i as int], profile));
            saw_eligible = true;
            if !(model == StaticPlacementModel::StrictOnePerBank && entry.assigned_components.len() > 0) {
                assert(expert_considered(model, *budget, entries@[i as int], profile));
                saw_empty_strict = true;
                if entry_has_residual_capacity(entry, payload_bytes) {
                    return Ok(i);
                }
                if first_cap_failure.is_none() {
                    first_cap_failure = Some(i);
                }
            }
        }
        i = i + 1;
    }
    match first_cap_failure {
        Some(slot_index) => Err(ExpertPlacementFailure::ExceedsEligibleSlotCap { slot_index }),
        None => {
            if model == StaticPlacementModel::StrictOnePerBank && saw_eligible && !saw_empty_strict {
                Err(ExpertPlacementFailure::StrictDistinctSlotsExhausted)
            } else {
                Err(ExpertPlacementFailure::NoEligibleSlots)
            }
        },
    }
}


/// An expert may go into the slot: an expert bank that admits the profile.
pub open spec fn view_expert_eligible(budget: RuntimeChromeBudget, entry: PerBankEntryView, profile: PlacementProfile) -> bool {
    spec_slot_accepts_profile(budget, entry.slot, profile) && entry.class == BudgetSlotClass::ExpertBank
}

/// The slot is tried for an expert under `model`: eligible, and empty when
/// each expert must have a bank of its own.
pub open spec fn view_tried(
    model: StaticPlacementModel,
    budget: RuntimeChromeBudget,
    entry: PerBankEntryView,
    profile: PlacementProfile,
) -> bool {
    &&& view_expert_eligible(budget, entry, profile)
    &&& (model == StaticPlacementModel::StrictOnePerBank ==> entry.assigned_components.len() == 0)
}

/// The slot is tried and has room for `payload_bytes` more under its cap.
pub open spec fn view_fits(
    model: StaticPlacementModel,
    budget: RuntimeChromeBudget,
    entry: PerBankEntryView,
    profile: PlacementProfile,
    payload_bytes: u32,
) -> bool {
    view_tried(model, budget, entry, profile) && entry.assigned_bytes + payload_bytes <= entry.effective_cap_bytes
}

/// The first-fit verdict for a payload of `payload_bytes`: the first slot
/// tried that has room; else the first slot tried, which is over its cap;
/// else, when each expert needs a bank of its own and some bank could take
/// experts, exhausted banks; else no slot.
pub open spec fn spec_first_fit(
    model: StaticPlacementModel,
    profile: PlacementProfile,
    budget: RuntimeChromeBudget,
    entries: Seq<PerBankEntryView>,
    payload_bytes: u32,
) -> Result<usize, ExpertPlacementFailure> {
    if exists|k: int| 0 <= k < entries.len() && #[trigger] view_fits(model, budget, entries[k], profile, payload_bytes) {
        Ok(
            choose|k: usize|
                k < entries.len() && view_fits(model, budget, entries[k as int], profile, payload_bytes) && forall|j: int|
                    0 <= j < k ==> !#[trigger] view_fits(model, budget, entries[j], profile, payload_bytes),
        )
    } else if exists|k: int| 0 <= k < entries.len() && #[trigger] view_tried(model, budget, entries[k], profile) {
        Err(
            ExpertPlacementFailure::ExceedsEligibleSlotCap {
                slot_index: choose|k: usize|
                    k < entries.len() && view_tried(model, budget, entries[k as int], profile) && forall|j: int|
                        0 <= j < k ==> !#[trigger] view_tried(model, budget, entries[j], profile),
            },
        )
    } else if model == StaticPlacementModel::StrictOnePerBank && exists|k: int|
        0 <= k < entries.len() && #[trigger] view_expert_eligible(budget, entries[k], profile) {
        Err(ExpertPlacementFailure::StrictDistinctSlotsExhausted)
    } else {
        Err(ExpertPlacementFailure::NoEligibleSlots)
    }
}

proof fn lemma_first_fit_verdict_is_spec(
    model: StaticPlacementModel,
    profile: PlacementProfile,
    budget: RuntimeChromeBudget,
    entries: Seq<PerBankEntry>,
    payload_bytes: u32,
    found: Result<usize, ExpertPlacementFailure>,
)
    requires
        first_fit_verdict(model, profile, budget, entries, payload_bytes, found),
    ensures
        found == spec_first_fit(model, profile, budget, entry_views(entries), payload_bytes),
{
    let views = entry_views(entries);
    assert forall|j: int| 0 <= j < entries.len() implies #[trigger] views[j] == entries[j]@ by {}
    let fits = |j: int| view_fits(model, budget, views[j], profile, payload_bytes);
    let tried = |j: int| view_tried(model, budget, views[j], profile);
    assert forall|j: int| 0 <= j < entries.len() implies (#[trigger] tried(j)) == expert_considered(model, budget, entries[j], profile) by {
        assert(views[j] == entries[j]@);
    }
    match found {
        Ok(k) => {
            assert(fits(k as int));
            assert(exists|x: int| 0 <= x < views.len() && #[trigger] view_fits(model, budget, views[x], profile, payload_bytes));
            let c = choose|c: usize|
                c < views.len() && view_fits(model, budget, views[c as int], profile, payload_bytes) && forall|j: int|
                    0 <= j < c ==> !#[trigger] view_fits(model, budget, views[j], profile, payload_bytes);
            assert(forall|j: int| 0 <= j < k ==> !#[trigger] view_fits(model, budget, views[j], profile, payload_bytes)) by {
                assert forall|j: int| 0 <= j < k implies !#[trigger] view_fits(model, budget, views[j], profile, payload_bytes) by {
                    assert(tried(j) == expert_considered(model, budget, entries[j], profile));
                    assert(views[j] == entries[j]@);
                }
            }
            if c < k {
                assert(!view_fits(model, budget, views[c as int], profile, payload_bytes));
            }
            if c > k {
                assert(!view_fits(model, budget, views[k as int], profile, payload_bytes));
            }
        },
        Err(ExpertPlacementFailure::ExceedsEligibleSlotCap { slot_index }) => {
            assert forall|j: int| 0 <= j < views.len() implies !#[trigger] view_fits(model, budget, views[j], profile, payload_bytes) by {
                assert(tried(j) == expert_considered(model, budget, entries[j], profile));
                assert(views[j] == entries[j]@);
            }
            assert(tried(slot_index as int));
            assert(exists|x: int| 0 <= x < views.len() && #[trigger] view_tried(model, budget, views[x], profile));
            let c = choose|c: usize|
                c < views.len() && view_tried(model, budget, views[c as int], profile) && forall|j: int|
                    0 <= j < c ==> !#[trigger] view_tried(model, budget, views[j], profile);
            assert forall|j: int| 0 <= j < slot_index implies !#[trigger] view_tried(model, budget, views[j], profile) by {
                assert(tried(j) == expert_considered(model, budget, entries[j], profile));
            }
            if c < slot_index {
                assert(!view_tried(model, budget, views[c as int], profile));
            }
            if c > slot_index {
                assert(!view_tried(model, budget, views[slot_index as int], profile));
            }
        },
        Err(ExpertPlacementFailure::StrictDistinctSlotsExhausted) => {
            assert forall|j: int| 0 <= j < views.len() implies !#[trigger] view_tried(model, budget, views[j], profile) by {
                assert(tried(j) == expert_considered(model, budget, entries[j], profile));
            }
            let w = choose|w: int| 0 <= w < entries.len() && #[trigger] expert_eligible(budget, entries[w], profile);
            assert(view_expert_eligible(budget, views[w], profile));
        },
        Err(ExpertPlacementFailure::NoEligibleSlots) => {
            assert forall|j: int| 0 <= j < views.len() implies !#[trigger] view_tried(model, budget, views[j], profile) by {
                assert(tried(j) == expert_considered(model, budget, entries[j], profile));
            }
            if model == StaticPlacementModel::StrictOnePerBank {
                assert forall|j: int| 0 <= j < views.len() implies !#[trigger] view_expert_eligible(budget, views[j], profile) by {
                    assert(views[j] == entries[j]@);
                    assert(!expert_eligible(budget, entries[j], profile));
                }
            }
        },
    }
}

/// `after` is `before` with nothing about its slot changed.
pub open spec fn same_slot_shape(before: PerBankEntry, after: PerBankEntry) -> bool {
    &&& after.slot == before.slot
    &&& after.class == before.class
    &&& after.usable_bytes == before.usable_bytes
    &&& after.reserved_slack == before.reserved_slack
    &&& after.effective_cap_bytes == before.effective_cap_bytes
    &&& after.placement_caps@ == before.placement_caps@
}

/// `after` is `before` unchanged.
pub open spec fn same_entry(before: PerBankEntry, after: PerBankEntry) -> bool {
    &&& same_slot_shape(before, after)
    &&& after.assigned_bytes == before.assigned_bytes
    &&& after.residual_bytes == before.residual_bytes
    &&& after.assigned_components@ == before.assigned_components@
}

/// `a + b`, saturating at `u32::MAX`.
pub open spec fn sat_add_u32(a: u32, b: u32) -> u32 {
    if a + b > u32::MAX {
        u32::MAX
    } else {
        (a + b) as u32
    }
}

/// `after` is `before` with `component` of `bytes` bytes assigned to it.
pub open spec fn assigned_to(before: PerBankEntry, bytes: u32, component: BudgetComponentRef, after: PerBankEntry) -> bool {
    &&& same_slot_shape(before, after)
    &&& after.assigned_bytes == sat_add_u32(before.assigned_bytes, bytes)
    &&& after.residual_bytes == spec_residual_i32(before.effective_cap_bytes - after.assigned_bytes)
    &&& after.assigned_components@ == before.assigned_components@.push(component)
}

/// Assigns `component` of `bytes` bytes to entry `i`.
fn assign_component_at(entries: &mut Vec<PerBankEntry>, i: usize, bytes: u32, component: BudgetComponentRef)
    requires
        i < old(entries)@.len(),
        i64::MIN + u32::MAX <= old(entries)@[i as int].effective_cap_bytes,
    ensures
        final(entries)@.len() == old(entries)@.len(),
        assigned_to(old(entries)@[i as int], bytes, component, final(entries)@[i as int]),
        forall|j: int| 0 <= j < old(entries)@.len() && j != i ==> #[trigger] final(entries)@[j] == old(entries)@[j],
{
    let mut entry = entries.remove(i);
    entry.assigned_bytes = entry.assigned_bytes.saturating_add(bytes);
    entry.residual_bytes = residual_i32(entry.effective_cap_bytes - entry.assigned_bytes as i64);
    entry.assigned_components.push(component);
    entries.insert(i, entry);
}

/// The cap of an entry as a `u32`: zero when negative, saturating above.
pub open spec fn cap_u32(cap: i64) -> u32 {
    if cap < 0 {
        0
    } else if cap > u32::MAX {
        u32::MAX
    } else {
        cap as u32
    }
}

fn cap_bytes_u32(cap: i64) -> (narrowed: u32)
    ensures
        narrowed == cap_u32(cap),
{
    if cap < 0 {
        0
    } else if cap > u32::MAX as i64 {
        u32::MAX
    } else {
        cap as u32
    }
}

/// `a - b`, saturating at zero.
pub open spec fn sat_sub_u32(a: u32, b: u32) -> u32 {
    if a < b {
        0
    } else {
        (a - b) as u32
    }
}

/// The failure that an expert's placement verdict reports.
pub open spec fn spec_expert_placement_failure(
    failure: ExpertPlacementFailure,
    profile: PlacementProfile,
    payload: ExpertPlacementPayload,
    entries: Seq<PerBankEntryView>,
) -> BudgetFailure {
    match failure {
        ExpertPlacementFailure::NoEligibleSlots => BudgetFailure::PlacementProfileInfeasible {
            profile,
            reason: PlacementInfeasibilityReason::NoSlotsForClass,
        },
        ExpertPlacementFailure::StrictDistinctSlotsExhausted => BudgetFailure::PlacementProfileInfeasible {
            profile,
            reason: PlacementInfeasibilityReason::ExpertCountExceedsSlots,
        },
        ExpertPlacementFailure::ExceedsEligibleSlotCap { slot_index } => {
            let slot = entries[slot_index as int];
            let cap = cap_u32(slot.effective_cap_bytes);
            BudgetFailure::ExpertExceedsSlot {
                layer: payload.layer,
                expert: payload.expert,
                slot: slot.slot,
                payload_bytes: payload.payload_bytes,
                cap_bytes: cap,
                excess_bytes: sat_sub_u32(sat_add_u32(slot.assigned_bytes, payload.payload_bytes), cap),
            }
        },
    }
}

fn expert_placement_failure(
    failure: ExpertPlacementFailure,
    profile: PlacementProfile,
    payload: ExpertPlacementPayload,
    entries: &Vec<PerBankEntry>,
) -> (found: BudgetFailure)
    requires
        failure matches ExpertPlacementFailure::ExceedsEligibleSlotCap { slot_index } ==> slot_index < entries@.len(),
    ensures
        found == spec_expert_placement_failure(failure, profile, payload, entry_views(entries@)),
{
    proof {
        if let ExpertPlacementFailure::ExceedsEligibleSlotCap { slot_index } = failure {
            assert(entry_views(entries@)[slot_index as int] == entries@[slot_index as int]@);
        }
    }
    match failure {
        ExpertPlacementFailure::NoEligibleSlots => BudgetFailure::PlacementProfileInfeasible {
            profile,
            reason: PlacementInfeasibilityReason::NoSlotsForClass,
        },
        ExpertPlacementFailure::StrictDistinctSlotsExhausted => BudgetFailure::PlacementProfileInfeasible {
            profile,
            reason: PlacementInfeasibilityReason::ExpertCountExceedsSlots,
        },
        ExpertPlacementFailure::ExceedsEligibleSlotCap { slot_index } => {
            let slot = &entries[slot_index];
            let assigned_if_placed = slot.assigned_bytes.saturating_add(payload.payload_bytes);
            let cap = cap_bytes_u32(slot.effective_cap_bytes);
            BudgetFailure::ExpertExceedsSlot {
                layer: payload.layer,
                expert: payload.expert,
                slot: slot.slot,
                payload_bytes: payload.payload_bytes,
                cap_bytes: cap,
                excess_bytes: assigned_if_placed.saturating_sub(cap),
            }
        },
    }
}

pub open spec fn spec_unassigned_status(failure: ExpertPlacementFailure) -> ExpertPlacementStatus {
    match failure {
        ExpertPlacementFailure::NoEligibleSlots => ExpertPlacementStatus::UnassignedNoEligibleSlots,
        ExpertPlacementFailure::StrictDistinctSlotsExhausted => ExpertPlacementStatus::UnassignedStrictDistinctSlotsExhausted,
        ExpertPlacementFailure::ExceedsEligibleSlotCap { .. } => ExpertPlacementStatus::AssignedOverCap,
    }
}

fn expert_unassigned_status(failure: ExpertPlacementFailure) -> (status: ExpertPlacementStatus)
    ensures
        status == spec_unassigned_status(failure),
{
    match failure {
        ExpertPlacementFailure::NoEligibleSlots => ExpertPlacementStatus::UnassignedNoEligibleSlots,
        ExpertPlacementFailure::StrictDistinctSlotsExhausted => ExpertPlacementStatus::UnassignedStrictDistinctSlotsExhausted,
        ExpertPlacementFailure::ExceedsEligibleSlotCap { .. } => ExpertPlacementStatus::AssignedOverCap,
    }
}

pub open spec fn spec_unassigned_because(failure: ExpertPlacementFailure) -> Option<UnassignedBecause> {
    match failure {
        ExpertPlacementFailure::NoEligibleSlots => Some(UnassignedBecause::NoEligibleSlots),
        ExpertPlacementFailure::StrictDistinctSlotsExhausted => Some(UnassignedBecause::StrictDistinctSlotsExhausted),
        ExpertPlacementFailure::ExceedsEligibleSlotCap { .. } => None,
    }
}

fn expert_unassigned_because(failure: ExpertPlacementFailure) -> (because: Option<UnassignedBecause>)
    ensures
        because == spec_unassigned_because(failure),
{
    match failure {
        ExpertPlacementFailure::NoEligibleSlots => Some(UnassignedBecause::NoEligibleSlots),
        ExpertPlacementFailure::StrictDistinctSlotsExhausted => Some(UnassignedBecause::StrictDistinctSlotsExhausted),
        ExpertPlacementFailure::ExceedsEligibleSlotCap { .. } => None,
    }
}

/// The entry is placed: in a slot, over its cap or not.
pub open spec fn is_placed(status: ExpertPlacementStatus) -> bool {
    status == ExpertPlacementStatus::Assigned || status == ExpertPlacementStatus::AssignedOverCap
}

/// `k` is listed in `order`.
pub open spec fn listed(order: Seq<usize>, k: int) -> bool {
    exists|q: int| 0 <= q < order.len() && order[q] as int == k
}

/// Payload `a` at position `i` is placed no later than payload `b` at
/// position `j` among packed experts: larger payloads first, then by layer,
/// by expert, and by position.
pub open spec fn packed_le(a: ExpertPlacementPayload, i: usize, b: ExpertPlacementPayload, j: usize) -> bool {
    ||| a.payload_bytes > b.payload_bytes
    ||| a.payload_bytes == b.payload_bytes && a.layer.0 < b.layer.0
    ||| a.payload_bytes == b.payload_bytes && a.layer.0 == b.layer.0 && a.expert.0 < b.expert.0
    ||| a.payload_bytes == b.payload_bytes && a.layer.0 == b.layer.0 && a.expert.0 == b.expert.0 && i <= j
}

/// The order on payload positions that packed experts are placed in.
pub open spec fn packed_before(payloads: Seq<ExpertPlacementPayload>) -> spec_fn(usize, usize) -> bool {
    |i: usize, j: usize| packed_le(payloads[i as int], i, payloads[j as int], j)
}

/// The positions of `n` payloads, in the order given.
pub open spec fn positions(n: nat) -> Seq<usize> {
    Seq::new(n, |i: int| i as usize)
}

/// The order in which payloads are placed: as given, or for packed experts
/// largest first, then by layer and expert.
pub open spec fn spec_placement_order(model: StaticPlacementModel, payloads: Seq<ExpertPlacementPayload>) -> Seq<usize> {
    if model == StaticPlacementModel::PackedExpertsFirstFitDecreasing {
        positions(payloads.len()).sort_by(packed_before(payloads))
    } else {
        positions(payloads.len())
    }
}

proof fn lemma_packed_total(payloads: Seq<ExpertPlacementPayload>)
    ensures
        total_ordering(packed_before(payloads)),
{
    let r = packed_before(payloads);
    assert forall|x: usize| #[trigger] r(x, x) by {}
    assert forall|x: usize, y: usize| #[trigger] r(x, y) && #[trigger] r(y, x) implies x == y by {}
    assert forall|x: usize, y: usize, z: usize| #[trigger] r(x, y) && #[trigger] r(y, z) implies r(x, z) by {}
    assert forall|x: usize, y: usize| #[trigger] r(x, y) || #[trigger] r(y, x) by {}
}

fn packed_le_exec(payloads: &Vec<ExpertPlacementPayload>, i: usize, j: usize) -> (le: bool)
    requires
        i < payloads@.len(),
        j < payloads@.len(),
    ensures
        le == packed_before(payloads@)(i, j),
{
    let a = payloads[i];
    let b = payloads[j];
    a.payload_bytes > b.payload_bytes || (a.payload_bytes == b.payload_bytes && (a.layer.0 < b.layer.0 || (a.layer.0
        == b.layer.0 && (a.expert.0 < b.expert.0 || (a.expert.0 == b.expert.0 && i <= j)))))
}

/// Sorts the payload positions into the order of packed experts.
fn packed_order(payloads: &Vec<ExpertPlacementPayload>) -> (order: Vec<usize>)
    ensures
        order@ == positions(payloads@.len()).sort_by(packed_before(payloads@)),
{
    let ghost leq = packed_before(payloads@);
    proof {
        lemma_packed_total(payloads@);
    }
    let mut order: Vec<usize> = Vec::new();
    let mut i: usize = 0;
    while i < payloads.len()
        invariant
            i <= payloads@.len(),
            leq == packed_before(payloads@),
            total_ordering(leq),
            sorted_by(order@, leq),
            order@.to_multiset() == positions(i as nat).to_multiset(),
            forall|q: int| 0 <= q < order@.len() ==> #[trigger] order@[q] < i,
        decreases payloads@.len() - i,
    {
        let mut p: usize = 0;
        while p < order.len() && packed_le_exec(payloads, order[p], i)
            invariant
                i < payloads@.len(),
                p <= order@.len(),
                leq == packed_before(payloads@),
                forall|q: int| 0 <= q < order@.len() ==> #[trigger] order@[q] < i,
                forall|q: int| 0 <= q < p ==> #[trigger] leq(order@[q], i),
            decreases order@.len() - p,
        {
            p = p + 1;
        }
        let ghost before = order@;
        order.insert(p, i);
        proof {
            assert forall|x: int, y: int| 0 <= x < y < order@.len() implies #[trigger] leq(order@[x], order@[y]) by {
                if y < p {
                    assert(order@[x] == before[x] && order@[y] == before[y]);
                } else if y == p {
                    assert(order@[x] == before[x]);
                } else if x < p {
                    assert(order@[x] == before[x] && order@[y] == before[y - 1]);
                    assert(leq(before[x], i));
                    if p < before.len() {
                        assert(!leq(before[p as int], i));
                        assert(leq(i, before[p as int]));
                        if y - 1 > p {
                            assert(leq(before[p as int], before[y - 1]));
                        }
                        assert(leq(i, before[y - 1]));
                    }
                } else if x == p {
                    assert(order@[y] == before[y - 1]);
                    assert(!leq(before[p as int], i));
                    assert(leq(i, before[p as int]));
                    if y - 1 > p {
                        assert(leq(before[p as int], before[y - 1]));
                    }
                } else {
                    assert(order@[x] == before[x - 1] && order@[y] == before[y - 1]);
                }
            }
            assert(positions((i + 1) as nat) =~= positions(i as nat).push(i));
        }
        i = i + 1;
    }
    proof {
        let all = positions(payloads@.len());
        all.lemma_sort_by_ensures(leq);
        lemma_sorted_unique(order@, all.sort_by(leq), leq);
    }
    order
}

/// The order in which payloads are placed: as given, or for packed experts
/// largest first, then by layer and expert.
fn placement_order(model: StaticPlacementModel, payloads: &Vec<ExpertPlacementPayload>) -> (order: Vec<usize>)
    ensures
        order@ == spec_placement_order(model, payloads@),
        forall|t: int| 0 <= t < order@.len() ==> #[trigger] order@[t] < payloads@.len(),
        forall|k: int| 0 <= k < payloads@.len() ==> #[trigger] listed(order@, k),
{
    if model == StaticPlacementModel::PackedExpertsFirstFitDecreasing {
        let order = packed_order(payloads);
        let n = payloads.len();
        proof {
            let all = positions(payloads@.len());
            all.lemma_sort_by_ensures(packed_before(payloads@));
            assert forall|t: int| 0 <= t < order@.len() implies #[trigger] order@[t] < payloads@.len() by {
                assert(order@.to_multiset().count(order@[t]) > 0);
                assert(all.to_multiset().count(order@[t]) > 0);
                assert(all.contains(order@[t]));
            }
            assert forall|k: int| 0 <= k < payloads@.len() implies #[trigger] listed(order@, k) by {
                assert(all[k] == k as usize);
                assert(all.to_multiset().count(k as usize) > 0);
                assert(order@.contains(k as usize));
                let q = choose|q: int| 0 <= q < order@.len() && order@[q] == k as usize;
                assert(order@[q] as int == k);
            }
        }
        return order;
    }
    let mut order: Vec<usize> = Vec::new();
    let mut i: usize = 0;
    while i < payloads.len()
        invariant
            i <= payloads@.len(),
            order@ == positions(i as nat),
        decreases payloads@.len() - i,
    {
        order.push(i);
        i = i + 1;
        proof {
            assert(order@ =~= positions(i as nat));
        }
    }
    proof {
        assert forall|k: int| 0 <= k < payloads@.len() implies #[trigger] listed(order@, k) by {
            assert(order@[k] as int == k);
        }
    }
    order
}

/// `entry` with `component` of `bytes` bytes assigned to it.
pub open spec fn assign_view(entry: PerBankEntryView, bytes: u32, component: BudgetComponentRef) -> PerBankEntryView {
    let assigned = sat_add_u32(entry.assigned_bytes, bytes);
    PerBankEntryView {
        assigned_bytes: assigned,
        residual_bytes: spec_residual_i32(entry.effective_cap_bytes - assigned),
        assigned_components: entry.assigned_components.push(component),
        ..entry
    }
}

/// The row of an expert placed in `slot` with `status`.
pub open spec fn placed_row(row: PerExpertEntry, slot: BudgetSlotId, status: ExpertPlacementStatus) -> PerExpertEntry {
    PerExpertEntry { assigned_slot: Some(slot), unassigned_because: None, placement_status: status, ..row }
}

/// The row of an expert that found no slot for `failure`.
pub open spec fn unplaced_row(row: PerExpertEntry, failure: ExpertPlacementFailure) -> PerExpertEntry {
    PerExpertEntry {
        placement_status: spec_unassigned_status(failure),
        unassigned_because: spec_unassigned_because(failure),
        ..row
    }
}

/// The slot entries, the expert rows and the failures after one payload is
/// placed by first fit: into the slot with room, or over the cap of the
/// first slot tried (a failure), or nowhere (a failure).
pub open spec fn spec_place_one(
    model: StaticPlacementModel,
    profile: PlacementProfile,
    budget: RuntimeChromeBudget,
    state: (Seq<PerBankEntryView>, Seq<PerExpertEntry>, Seq<BudgetFailure>),
    payload: ExpertPlacementPayload,
) -> (Seq<PerBankEntryView>, Seq<PerExpertEntry>, Seq<BudgetFailure>) {
    let entries = state.0;
    let experts = state.1;
    let failures = state.2;
    let found = spec_first_fit(model, profile, budget, entries, payload.payload_bytes);
    let component = BudgetComponentRef::Expert { layer: payload.layer, expert: payload.expert };
    let row = experts[payload.payload_index as int];
    match found {
        Ok(k) => (
            entries.update(k as int, assign_view(entries[k as int], payload.payload_bytes, component)),
            experts.update(payload.payload_index as int, placed_row(row, entries[k as int].slot, ExpertPlacementStatus::Assigned)),
            failures,
        ),
        Err(ExpertPlacementFailure::ExceedsEligibleSlotCap { slot_index }) => (
            entries.update(slot_index as int, assign_view(entries[slot_index as int], payload.payload_bytes, component)),
            experts.update(
                payload.payload_index as int,
                placed_row(row, entries[slot_index as int].slot, ExpertPlacementStatus::AssignedOverCap),
            ),
            failures.push(
                spec_expert_placement_failure(
                    ExpertPlacementFailure::ExceedsEligibleSlotCap { slot_index },
                    profile,
                    payload,
                    entries,
                ),
            ),
        ),
        Err(failure) => (
            entries,
            experts.update(payload.payload_index as int, unplaced_row(row, failure)),
            failures.push(spec_expert_placement_failure(failure, profile, payload, entries)),
        ),
    }
}

/// The state after the payloads at the positions of `order` are placed, one
/// after another.
pub open spec fn spec_place_all(
    model: StaticPlacementModel,
    profile: PlacementProfile,
    budget: RuntimeChromeBudget,
    state: (Seq<PerBankEntryView>, Seq<PerExpertEntry>, Seq<BudgetFailure>),
    payloads: Seq<ExpertPlacementPayload>,
    order: Seq<usize>,
) -> (Seq<PerBankEntryView>, Seq<PerExpertEntry>, Seq<BudgetFailure>)
    decreases order.len(),
{
    if order.len() == 0 {
        state
    } else {
        spec_place_one(
            model,
            profile,
            budget,
            spec_place_all(model, profile, budget, state, payloads, order.drop_last()),
            payloads[order.last() as int],
        )
    }
}

/// Places each expert payload into a ROM slot under the static placement
/// model of `profile`, recording where it went and what failed.
///
/// The payloads are taken in the order of the model, each placed by first
/// fit; entries, expert rows and failures come out as that run leaves them.
/// Each expert that is placed sits in an expert bank that admits the
/// profile; under one expert per bank, a bank that started empty ends with at
/// most one component and a bank that did not start empty is left alone; no
/// bank that could not take an expert changes; and when nothing failed, every
/// bank that changed stays within its cap.
pub fn place_experts_by_static_model(
    profile: PlacementProfile,
    budget: &RuntimeChromeBudget,
    entries: &mut Vec<PerBankEntry>,
    experts: &mut Vec<PerExpertEntry>,
    payloads: &Vec<ExpertPlacementPayload>,
) -> (failures: Vec<BudgetFailure>)
    requires
        forall|t: int| 0 <= t < payloads@.len() ==> (#[trigger] payloads@[t]).payload_index == t,
        payloads@.len() <= old(experts)@.len(),
        forall|k: int| 0 <= k < old(experts)@.len() ==> !is_placed((#[trigger] old(experts)@[k]).placement_status),
        forall|i: int| 0 <= i < old(entries)@.len() ==> i64::MIN + u32::MAX <= (#[trigger] old(entries)@[i]).effective_cap_bytes <= u32::MAX,
    ensures
        final(entries)@.len() == old(entries)@.len(),
        final(experts)@.len() == old(experts)@.len(),
        forall|i: int| 0 <= i < old(entries)@.len() ==> same_slot_shape(old(entries)@[i], #[trigger] final(entries)@[i]),
        forall|i: int|
            0 <= i < old(entries)@.len() && !expert_eligible(*budget, old(entries)@[i], profile) ==> same_entry(
                old(entries)@[i],
                #[trigger] final(entries)@[i],
            ),
        StaticPlacementModel::spec_for_profile(profile) == StaticPlacementModel::StrictOnePerBank ==> forall|i: int|
            0 <= i < old(entries)@.len() ==> {
                let before = old(entries)@[i];
                let after = #[trigger] final(entries)@[i];
                if before.assigned_components@.len() == 0 {
                    after.assigned_components@.len() <= 1
                } else {
                    same_entry(before, after)
                }
            },
        forall|k: int|
            0 <= k < final(experts)@.len() && is_placed((#[trigger] final(experts)@[k]).placement_status) ==> exists|i: int|
                0 <= i < final(entries)@.len() && Some((#[trigger] final(entries)@[i]).slot) == final(experts)@[k].assigned_slot
                    && expert_eligible(*budget, final(entries)@[i], profile),
        failures@.len() == 0 ==> forall|i: int|
            0 <= i < old(entries)@.len() ==> same_entry(old(entries)@[i], #[trigger] final(entries)@[i])
                || final(entries)@[i].assigned_bytes <= final(entries)@[i].effective_cap_bytes,
        failures@.len() == 0 ==> forall|t: int|
            0 <= t < payloads@.len() ==> (#[trigger] final(experts)@[t]).placement_status == ExpertPlacementStatus::Assigned,
        (entry_views(final(entries)@), final(experts)@, failures@) == spec_place_all(
            StaticPlacementModel::spec_for_profile(profile),
            profile,
            *budget,
            (entry_views(old(entries)@), old(experts)@, Seq::empty()),
            payloads@,
            spec_placement_order(StaticPlacementModel::spec_for_profile(profile), payloads@),
        ),
{
    let model = StaticPlacementModel::for_profile(profile);
    let order = placement_order(model, payloads);
    let mut failures: Vec<BudgetFailure> = Vec::new();
    let ghost start = entries@;
    let ghost start_experts = experts@;
    let mut t: usize = 0;
    proof {
        assert(order@.take(0) =~= Seq::<usize>::empty());
    }
    while t < order.len()
        invariant
            (entry_views(entries@), experts@, failures@) == spec_place_all(
                model,
                profile,
                *budget,
                (entry_views(start), start_experts, Seq::empty()),
                payloads@,
                order@.take(t as int),
            ),
            model == StaticPlacementModel::spec_for_profile(profile),
            forall|q: int| 0 <= q < order@.len() ==> #[trigger] order@[q] < payloads@.len(),
            forall|q: int| 0 <= q < payloads@.len() ==> (#[trigger] payloads@[q]).payload_index == q,
            payloads@.len() <= experts@.len(),
            forall|k: int| 0 <= k < payloads@.len() ==> #[trigger] listed(order@, k),
            failures@.len() == 0 ==> forall|q: int|
                0 <= q < t ==> (#[trigger] experts@[order@[q] as int]).placement_status == ExpertPlacementStatus::Assigned,
            t <= order@.len(),
            entries@.len() == start.len(),
            experts@.len() == old(experts)@.len(),
            forall|i: int| 0 <= i < start.len() ==> i64::MIN + u32::MAX <= (#[trigger] start[i]).effective_cap_bytes <= u32::MAX,
            forall|i: int| 0 <= i < start.len() ==> same_slot_shape(start[i], #[trigger] entries@[i]),
            forall|i: int|
                0 <= i < start.len() && !expert_eligible(*budget, start[i], profile) ==> same_entry(start[i], #[trigger] entries@[i]),
            model == StaticPlacementModel::StrictOnePerBank ==> forall|i: int|
                0 <= i < start.len() ==> {
                    let before = start[i];
                    let after = #[trigger] entries@[i];
                    if before.assigned_components@.len() == 0 {
                        after.assigned_components@.len() <= 1
                    } else {
                        same_entry(before, after)
                    }
                },
            forall|k: int|
                0 <= k < experts@.len() && is_placed((#[trigger] experts@[k]).placement_status) ==> exists|i: int|
                    0 <= i < entries@.len() && Some((#[trigger] entries@[i]).slot) == experts@[k].assigned_slot
                        && expert_eligible(*budget, entries@[i], profile),
            failures@.len() == 0 ==> forall|i: int|
                0 <= i < start.len() ==> same_entry(start[i], #[trigger] entries@[i]) || entries@[i].assigned_bytes
                    <= entries@[i].effective_cap_bytes,
        decreases order@.len() - t,
    {
        let payload = payloads[order[t]];
        let found = first_fit_expert_slot(model, profile, budget, entries, payload.payload_bytes);
        let component = BudgetComponentRef::Expert { layer: payload.layer, expert: payload.expert };
        let ghost before = entries@;
        let ghost experts_before = experts@;
        let ghost state_before = (entry_views(before), experts_before, failures@);
        let ghost mut chosen: int = -1;
        proof {
            assert(order@.take(t + 1).drop_last() =~= order@.take(t as int));
            assert(order@.take(t + 1).last() == order@[t as int]);
        }
        match found {
            Ok(slot_index) => {
                let slot = entries[slot_index].slot;
                proof {
                    assert(expert_considered(model, *budget, before[slot_index as int], profile));
                    assert(same_slot_shape(start[slot_index as int], before[slot_index as int]));
                }
                assign_component_at(entries, slot_index, payload.payload_bytes, component);
                experts.set(payload.payload_index, PerExpertEntry {
                    assigned_slot: Some(slot),
                    unassigned_because: None,
                    placement_status: ExpertPlacementStatus::Assigned,
                    ..experts[payload.payload_index]
                });
                proof {
                    lemma_assigned_views(before, entries@, slot_index as int, payload.payload_bytes, component);
                    lemma_placement_step(model, profile, *budget, start, before, entries@, slot_index as int);
                    assert(entries@[slot_index as int].assigned_bytes <= entries@[slot_index as int].effective_cap_bytes);
                    assert(expert_eligible(*budget, entries@[slot_index as int], profile));
                    chosen = slot_index as int;
                }
            },
            Err(ExpertPlacementFailure::ExceedsEligibleSlotCap { slot_index }) => {
                let failure = expert_placement_failure(
                    ExpertPlacementFailure::ExceedsEligibleSlotCap { slot_index },
                    profile,
                    payload,
                    entries,
                );
                let slot = entries[slot_index].slot;
                proof {
                    assert(expert_considered(model, *budget, before[slot_index as int], profile));
                    assert(same_slot_shape(start[slot_index as int], before[slot_index as int]));
                }
                assign_component_at(entries, slot_index, payload.payload_bytes, component);
                experts.set(payload.payload_index, PerExpertEntry {
                    assigned_slot: Some(slot),
                    unassigned_because: None,
                    placement_status: ExpertPlacementStatus::AssignedOverCap,
                    ..experts[payload.payload_index]
                });
                failures.push(failure);
                proof {
                    lemma_assigned_views(before, entries@, slot_index as int, payload.payload_bytes, component);
                    lemma_placement_step(model, profile, *budget, start, before, entries@, slot_index as int);
                    assert(expert_eligible(*budget, entries@[slot_index as int], profile));
                    chosen = slot_index as int;
                }
            },
            Err(failure) => {
                let status = expert_unassigned_status(failure);
                let because = expert_unassigned_because(failure);
                experts.set(payload.payload_index, PerExpertEntry {
                    placement_status: status,
                    unassigned_because: because,
                    ..experts[payload.payload_index]
                });
                failures.push(expert_placement_failure(failure, profile, payload, entries));
            },
        }
        proof {
            assert((entry_views(entries@), experts@, failures@) == spec_place_one(model, profile, *budget, state_before, payload));
            if failures@.len() == 0 {
                assert(found is Ok);
                assert forall|q: int| 0 <= q < t + 1 implies (#[trigger] experts@[order@[q] as int]).placement_status
                    == ExpertPlacementStatus::Assigned by {
                    if q < t && order@[q] != order@[t as int] {
                        assert(experts@[order@[q] as int] == experts_before[order@[q] as int]);
                    }
                }
            }
            assert forall|k: int|
                0 <= k < experts@.len() && is_placed((#[trigger] experts@[k]).placement_status) implies exists|i: int|
                    0 <= i < entries@.len() && Some((#[trigger] entries@[i]).slot) == experts@[k].assigned_slot
                        && expert_eligible(*budget, entries@[i], profile) by {
                if k == payload.payload_index {
                    assert(0 <= chosen < entries@.len());
                    assert(Some(entries@[chosen].slot) == experts@[k].assigned_slot);
                    assert(expert_eligible(*budget, entries@[chosen], profile));
                } else {
                    assert(experts@[k] == experts_before[k]);
                    let i = choose|i: int|
                        0 <= i < before.len() && Some((#[trigger] before[i]).slot) == experts_before[k].assigned_slot
                            && expert_eligible(*budget, before[i], profile);
                    assert(same_slot_shape(start[i], before[i]));
                    assert(same_slot_shape(start[i], entries@[i]));
                    assert(Some(entries@[i].slot) == experts@[k].assigned_slot);
                }
            }
        }
        t = t + 1;
    }
    proof {
        assert(order@.take(t as int) =~= order@);
        if failures@.len() == 0 {
            assert forall|k: int| 0 <= k < payloads@.len() implies (#[trigger] experts@[k]).placement_status
                == ExpertPlacementStatus::Assigned by {
                assert(listed(order@, k));
                let q = choose|q: int| 0 <= q < order@.len() && order@[q] as int == k;
                assert(experts@[order@[q] as int].placement_status == ExpertPlacementStatus::Assigned);
            }
        }
    }
    failures
}

proof fn lemma_assigned_views(
    before: Seq<PerBankEntry>,
    after: Seq<PerBankEntry>,
    k: int,
    bytes: u32,
    component: BudgetComponentRef,
)
    requires
        0 <= k < before.len(),
        after.len() == before.len(),
        assigned_to(before[k], bytes, component, after[k]),
        forall|j: int| 0 <= j < before.len() && j != k ==> #[trigger] after[j] == before[j],
    ensures
        entry_views(after) == entry_views(before).update(k, assign_view(before[k]@, bytes, component)),
{
    assert(after[k]@ == assign_view(before[k]@, bytes, component));
    assert(entry_views(after) =~= entry_views(before).update(k, assign_view(before[k]@, bytes, component)));
}

/// One assignment to an entry tried for an expert keeps the placement
/// invariants of every entry.
proof fn lemma_placement_step(
    model: StaticPlacementModel,
    profile: PlacementProfile,
    budget: RuntimeChromeBudget,
    start: Seq<PerBankEntry>,
    before: Seq<PerBankEntry>,
    after: Seq<PerBankEntry>,
    slot_index: int,
)
    requires
        0 <= slot_index < before.len(),
        before.len() == start.len() == after.len(),
        expert_considered(model, budget, before[slot_index], profile),
        forall|i: int| 0 <= i < start.len() ==> same_slot_shape(start[i], #[trigger] before[i]),
        same_slot_shape(before[slot_index], after[slot_index]),
        after[slot_index].assigned_components@.len() == before[slot_index].assigned_components@.len() + 1,
        forall|j: int| 0 <= j < before.len() && j != slot_index ==> #[trigger] after[j] == before[j],
        model == StaticPlacementModel::StrictOnePerBank ==> forall|i: int|
            0 <= i < start.len() ==> {
                let b = start[i];
                let a = #[trigger] before[i];
                if b.assigned_components@.len() == 0 {
                    a.assigned_components@.len() <= 1
                } else {
                    same_entry(b, a)
                }
            },
        forall|i: int|
            0 <= i < start.len() && !expert_eligible(budget, start[i], profile) ==> same_entry(start[i], #[trigger] before[i]),
    ensures
        forall|i: int| 0 <= i < start.len() ==> same_slot_shape(start[i], #[trigger] after[i]),
        forall|i: int|
            0 <= i < start.len() && !expert_eligible(budget, start[i], profile) ==> same_entry(start[i], #[trigger] after[i]),
        model == StaticPlacementModel::StrictOnePerBank ==> forall|i: int|
            0 <= i < start.len() ==> {
                let b = start[i];
                let a = #[trigger] after[i];
                if b.assigned_components@.len() == 0 {
                    a.assigned_components@.len() <= 1
                } else {
                    same_entry(b, a)
                }
            },
{
    assert(same_slot_shape(start[slot_index], before[slot_index]));
    assert(expert_eligible(budget, start[slot_index], profile));
    assert forall|i: int| 0 <= i < start.len() implies same_slot_shape(start[i], #[trigger] after[i]) by {
        if i != slot_index {
            assert(after[i] == before[i]);
        }
    }
    if model == StaticPlacementModel::StrictOnePerBank {
        assert(before[slot_index].assigned_components@.len() == 0);
        assert forall|i: int| 0 <= i < start.len() implies {
            let b = start[i];
            let a = #[trigger] after[i];
            if b.assigned_components@.len() == 0 {
                a.assigned_components@.len() <= 1
            } else {
                same_entry(b, a)
            }
        } by {
            if i != slot_index {
                assert(after[i] == before[i]);
            } else {
                let b = start[i];
                if b.assigned_components@.len() != 0 {
                    assert(same_entry(b, before[i]));
                }
            }
        }
    }
}


// ------------------------------------------------------------ budget view

#[derive(Clone, Debug, PartialEq, Eq)]
pub struct SharedKernelProjection {
    pub id: KernelSpecId,
    pub bytes: u32,
    pub bank0_compatible: bool,
}

#[derive(Clone, Debug, PartialEq, Eq)]
pub struct SharedLutProjection {
    pub id: String,
    pub bytes: u32,
    pub bank0_compatible: bool,
}

#[derive(Clone, Copy, Debug, PartialEq, Eq, Structural)]
pub struct SharedDenseFfnProjection {
    pub bytes: u32,
    pub bank0_compatible: bool,
}

/// The domain a reduction site accumulates in.
#[derive(Clone, Copy, Debug, PartialEq, Eq, Structural, Hash)]
pub enum AccumulatorDomain {
    RawIntegerProducts,
    PostScaleQ8_8,
    PostScaleQ16_16,
}

/// One reduction site: how many terms it sums and how large they get.
#[derive(Clone, Debug, PartialEq, Eq)]
pub struct ReductionSiteProjection {
    pub site: ReductionSiteId,
    pub layer: Option<LayerId>,
    pub expert: Option<ExpertId>,
    pub term_count: u32,
    pub input_max_abs_q: u32,
    pub weight_max_abs_q: u32,
    pub bias_max_abs_q: Option<u32>,
    pub accumulator_domain: AccumulatorDomain,
}

/// The projected sequence-state memory of one token.
#[derive(Clone, Copy, Debug, PartialEq, Eq, Structural)]
pub struct SequenceStateProjection {
    pub projected_wram_bytes: u32,
    pub projected_wram_source: ProjectedSizeSource,
    pub projected_sram_bytes: u32,
    pub projected_sram_source: ProjectedSizeSource,
    pub projected_hram_bytes: u32,
    pub projected_hram_source: ProjectedSizeSource,
    pub projected_sram_page_switches_per_token: u16,
}

#[derive(Clone, Debug, PartialEq, Eq)]
pub struct RoutingModelSection {
    pub kind: String,
}

#[derive(Clone, Debug, PartialEq, Eq)]
pub struct RoutingProjection {
    pub model: RoutingModelSection,
    pub projected_bank_switches_per_token: u16,
    pub expected_bank_switches_q16_16: Option<u32>,
}

impl Default for RoutingProjection {
    /// A synthetic top-1 router that never switches banks.
    fn default() -> (routing: RoutingProjection)
        ensures
            routing.model.kind@ == "synthetic-top1"@,
            routing.projected_bank_switches_per_token == 0,
            routing.expected_bank_switches_q16_16 is None,
    {
        RoutingProjection {
            model: RoutingModelSection { kind: "synthetic-top1".to_owned() },
            projected_bank_switches_per_token: 0,
            expected_bank_switches_q16_16: None,
        }
    }
}

/// What the budget reads of a quantized graph.
#[derive(Clone, Debug, PartialEq, Eq)]
pub struct QuantGraphBudgetView {
    pub semantic_core_hash: Hash256,
    pub quant_graph_hash: Hash256,
    pub layers: Vec<LayerId>,
    pub experts: Vec<ExpertProjection>,
    pub shared_kernels: Vec<SharedKernelProjection>,
    pub shared_luts: Vec<SharedLutProjection>,
    pub shared_dense_ffn: Option<SharedDenseFfnProjection>,
    pub reduction_sites: Vec<ReductionSiteProjection>,
    pub sequence_state: SequenceStateProjection,
    pub routing: RoutingProjection,
}

/// Why a budget view is refused.
#[derive(Clone, Copy, Debug, PartialEq, Eq, Structural)]
pub enum QuantGraphBudgetViewError {
    Malformed { field: BudgetField },
}

impl QuantGraphBudgetViewError {
    /// The budget failure that reports this error.
    pub fn into_failure(self) -> (failure: BudgetFailure)
        ensures
            self matches QuantGraphBudgetViewError::Malformed { field } && failure == malformed_failure(field),
    {
        match self {
            QuantGraphBudgetViewError::Malformed { field } => BudgetFailure::QuantGraphBudgetViewMalformed { field },
        }
    }

    pub fn field_path(&self) -> (field: BudgetField)
        ensures
            *self == (QuantGraphBudgetViewError::Malformed { field }),
    {
        match self {
            QuantGraphBudgetViewError::Malformed { field } => *field,
        }
    }
}

// ------------------------------------------------------------- common bank

/// The bytes of the shared components in the common bank.
#[derive(Clone, Copy, Debug, PartialEq, Eq, Structural)]
pub struct CommonBankFootprintSection {
    pub kernel_bytes: u32,
    pub lut_bytes: u32,
    pub shared_dense_ffn_bytes: Option<u32>,
    pub aggregate_bytes: u32,
}

pub open spec fn kernel_bytes_total(kernels: Seq<SharedKernelProjection>) -> int
    decreases kernels.len(),
{
    if kernels.len() == 0 {
        0
    } else {
        kernel_bytes_total(kernels.drop_last()) + kernels.last().bytes
    }
}

pub open spec fn lut_bytes_total(luts: Seq<SharedLutProjection>) -> int
    decreases luts.len(),
{
    if luts.len() == 0 {
        0
    } else {
        lut_bytes_total(luts.drop_last()) + luts.last().bytes
    }
}

pub open spec fn dense_bytes(view: QuantGraphBudgetView) -> int {
    match view.shared_dense_ffn {
        Some(dense) => dense.bytes as int,
        None => 0,
    }
}

proof fn lemma_kernel_total_monotone(kernels: Seq<SharedKernelProjection>, n: int)
    requires
        0 <= n <= kernels.len(),
    ensures
        0 <= kernel_bytes_total(kernels.subrange(0, n)) <= kernel_bytes_total(kernels),
    decreases kernels.len() - n,
{
    if n < kernels.len() {
        assert(kernels.subrange(0, n + 1).drop_last() =~= kernels.subrange(0, n));
        lemma_kernel_total_monotone(kernels, n + 1);
    } else {
        assert(kernels.subrange(0, n) =~= kernels);
    }
    if n == 0 {
        assert(kernels.subrange(0, 0) =~= Seq::<SharedKernelProjection>::empty());
    } else {
        lemma_kernel_total_nonneg(kernels.subrange(0, n));
    }
}

proof fn lemma_kernel_total_nonneg(kernels: Seq<SharedKernelProjection>)
    ensures
        0 <= kernel_bytes_total(kernels),
    decreases kernels.len(),
{
    if kernels.len() > 0 {
        lemma_kernel_total_nonneg(kernels.drop_last());
    }
}

proof fn lemma_lut_total_monotone(luts: Seq<SharedLutProjection>, n: int)
    requires
        0 <= n <= luts.len(),
    ensures
        0 <= lut_bytes_total(luts.subrange(0, n)) <= lut_bytes_total(luts),
    decreases luts.len() - n,
{
    if n < luts.len() {
        assert(luts.subrange(0, n + 1).drop_last() =~= luts.subrange(0, n));
        lemma_lut_total_monotone(luts, n + 1);
    } else {
        assert(luts.subrange(0, n) =~= luts);
    }
    if n == 0 {
        assert(luts.subrange(0, 0) =~= Seq::<SharedLutProjection>::empty());
    } else {
        lemma_lut_total_nonneg(luts.subrange(0, n));
    }
}

proof fn lemma_lut_total_nonneg(luts: Seq<SharedLutProjection>)
    ensures
        0 <= lut_bytes_total(luts),
    decreases luts.len(),
{
    if luts.len() > 0 {
        lemma_lut_total_nonneg(luts.drop_last());
    }
}

fn malformed(field: BudgetField) -> (failure: BudgetFailure)
    ensures
        failure == (BudgetFailure::QuantGraphBudgetViewMalformed { field }),
{
    BudgetFailure::QuantGraphBudgetViewMalformed { field }
}

/// The footprint of the shared kernels, lookup tables and dense FFN, or the
/// field whose total leaves 32 bits.
pub open spec fn spec_common_footprint(view: QuantGraphBudgetView) -> Result<CommonBankFootprintSection, BudgetFailure> {
    let kernels = kernel_bytes_total(view.shared_kernels@);
    let luts = lut_bytes_total(view.shared_luts@);
    if kernels > u32::MAX {
        Err(malformed_failure(BudgetField::SharedKernels))
    } else if luts > u32::MAX {
        Err(malformed_failure(BudgetField::SharedLuts))
    } else if kernels + luts + dense_bytes(view) > u32::MAX {
        Err(malformed_failure(BudgetField::CommonBankFootprintAggregate))
    } else {
        Ok(
            CommonBankFootprintSection {
                kernel_bytes: kernels as u32,
                lut_bytes: luts as u32,
                shared_dense_ffn_bytes: match view.shared_dense_ffn {
                    Some(dense) => Some(dense.bytes),
                    None => None,
                },
                aggregate_bytes: (kernels + luts + dense_bytes(view)) as u32,
            },
        )
    }
}

/// The footprint of the shared kernels, lookup tables and dense FFN; refused
/// when a total leaves 32 bits.
pub fn common_bank_footprint(view: &QuantGraphBudgetView) -> (footprint: Result<CommonBankFootprintSection, BudgetFailure>)
    ensures
        footprint == spec_common_footprint(*view),
{
    let mut kernels: u64 = 0;
    let mut k: usize = 0;
    while k < view.shared_kernels.len()
        invariant
            k <= view.shared_kernels@.len(),
            kernels == kernel_bytes_total(view.shared_kernels@.subrange(0, k as int)),
            kernels <= u32::MAX,
        decreases view.shared_kernels@.len() - k,
    {
        proof {
            assert(view.shared_kernels@.subrange(0, k + 1).drop_last() =~= view.shared_kernels@.subrange(0, k as int));
            lemma_kernel_total_monotone(view.shared_kernels@, k + 1);
        }
        kernels = kernels + view.shared_kernels[k].bytes as u64;
        if kernels > u32::MAX as u64 {
            return Err(malformed(BudgetField::SharedKernels));
        }
        k = k + 1;
    }
    proof {
        assert(view.shared_kernels@.subrange(0, view.shared_kernels@.len() as int) =~= view.shared_kernels@);
    }
    let mut luts: u64 = 0;
    let mut l: usize = 0;
    while l < view.shared_luts.len()
        invariant
            l <= view.shared_luts@.len(),
            kernels == kernel_bytes_total(view.shared_kernels@),
            kernels <= u32::MAX,
            luts == lut_bytes_total(view.shared_luts@.subrange(0, l as int)),
            luts <= u32::MAX,
        decreases view.shared_luts@.len() - l,
    {
        proof {
            assert(view.shared_luts@.subrange(0, l + 1).drop_last() =~= view.shared_luts@.subrange(0, l as int));
            lemma_lut_total_monotone(view.shared_luts@, l + 1);
        }
        luts = luts + view.shared_luts[l].bytes as u64;
        if luts > u32::MAX as u64 {
            return Err(malformed(BudgetField::SharedLuts));
        }
        l = l + 1;
    }
    proof {
        assert(view.shared_luts@.subrange(0, view.shared_luts@.len() as int) =~= view.shared_luts@);
    }
    let dense: u64 = match view.shared_dense_ffn {
        Some(dense) => dense.bytes as u64,
        None => 0,
    };
    let aggregate = kernels + luts + dense;
    if aggregate > u32::MAX as u64 {
        return Err(malformed(BudgetField::CommonBankFootprintAggregate));
    }
    Ok(CommonBankFootprintSection {
        kernel_bytes: kernels as u32,
        lut_bytes: luts as u32,
        shared_dense_ffn_bytes: match view.shared_dense_ffn {
            Some(dense) => Some(dense.bytes),
            None => None,
        },
        aggregate_bytes: aggregate as u32,
    })
}

pub open spec fn malformed_failure(field: BudgetField) -> BudgetFailure {
    BudgetFailure::QuantGraphBudgetViewMalformed { field }
}

/// A shared component may go into the entry: a common bank, or bank 0 for a
/// component that allows it, that admits the profile.
pub open spec fn common_eligible(
    budget: RuntimeChromeBudget,
    entry: PerBankEntry,
    profile: PlacementProfile,
    bank0_compatible: bool,
) -> bool {
    &&& (entry.class == BudgetSlotClass::CommonBank || (bank0_compatible && entry.class == BudgetSlotClass::Bank0Free))
    &&& spec_slot_accepts_profile(budget, entry.slot, profile)
}

/// A shared component may go into the slot.
pub open spec fn view_common_eligible(
    budget: RuntimeChromeBudget,
    entry: PerBankEntryView,
    profile: PlacementProfile,
    bank0_compatible: bool,
) -> bool {
    &&& (entry.class == BudgetSlotClass::CommonBank || (bank0_compatible && entry.class == BudgetSlotClass::Bank0Free))
    &&& spec_slot_accepts_profile(budget, entry.slot, profile)
}

/// A shared component may go into the slot and fits under its cap.
pub open spec fn view_common_fits(
    budget: RuntimeChromeBudget,
    entry: PerBankEntryView,
    profile: PlacementProfile,
    bank0_compatible: bool,
    bytes: u32,
) -> bool {
    view_common_eligible(budget, entry, profile, bank0_compatible) && entry.assigned_bytes + bytes <= entry.effective_cap_bytes
}

/// The slot entries after one shared component is placed, and its failure:
/// none when no slot may take it; the first that fits; else the first that
/// may take it, over its cap.
#[verifier::opaque]
pub open spec fn spec_place_common(
    profile: PlacementProfile,
    budget: RuntimeChromeBudget,
    entries: Seq<PerBankEntryView>,
    bytes: u32,
    component: BudgetComponentRef,
    bank0_compatible: bool,
) -> (Seq<PerBankEntryView>, Option<BudgetFailure>) {
    if !exists|k: int| 0 <= k < entries.len() && #[trigger] view_common_eligible(budget, entries[k], profile, bank0_compatible) {
        (
            entries,
            Some(
                BudgetFailure::PlacementProfileInfeasible {
                    profile,
                    reason: PlacementInfeasibilityReason::RequiresUnavailableSlotClass,
                },
            ),
        )
    } else if exists|k: int| 0 <= k < entries.len() && #[trigger] view_common_fits(budget, entries[k], profile, bank0_compatible, bytes) {
        let k = choose|k: int|
            0 <= k < entries.len() && view_common_fits(budget, entries[k], profile, bank0_compatible, bytes) && forall|j: int|
                0 <= j < k ==> !#[trigger] view_common_fits(budget, entries[j], profile, bank0_compatible, bytes);
        (entries.update(k, assign_view(entries[k], bytes, component)), None)
    } else {
        let k = choose|k: int|
            0 <= k < entries.len() && view_common_eligible(budget, entries[k], profile, bank0_compatible) && forall|j: int|
                0 <= j < k ==> !#[trigger] view_common_eligible(budget, entries[j], profile, bank0_compatible);
        let after = assign_view(entries[k], bytes, component);
        let cap = cap_u32(after.effective_cap_bytes);
        (
            entries.update(k, after),
            Some(
                BudgetFailure::CommonBankExceedsCap {
                    assigned_bytes: after.assigned_bytes,
                    cap_bytes: cap,
                    excess_bytes: sat_sub_u32(after.assigned_bytes, cap),
                },
            ),
        )
    }
}

/// The failures with `failure` recorded: a cap overflow replaces the one
/// already there when it is worse (by excess, then by bytes assigned); any
/// other failure is added unless it is there already.
#[verifier::opaque]
pub open spec fn spec_push_common_failure(failures: Seq<BudgetFailure>, failure: BudgetFailure) -> Seq<BudgetFailure> {
    match failure {
        BudgetFailure::CommonBankExceedsCap { assigned_bytes, cap_bytes, excess_bytes } => {
            if exists|q: int| 0 <= q < failures.len() && #[trigger] failures[q] is CommonBankExceedsCap {
                let q = choose|q: int| 0 <= q < failures.len() && #[trigger] failures[q] is CommonBankExceedsCap;
                let existing = failures[q];
                if excess_bytes > existing->CommonBankExceedsCap_excess_bytes || (excess_bytes
                    == existing->CommonBankExceedsCap_excess_bytes && assigned_bytes
                    > existing->CommonBankExceedsCap_assigned_bytes) {
                    failures.update(q, failure)
                } else {
                    failures
                }
            } else {
                failures.push(failure)
            }
        },
        _ => {
            if failures.contains(failure) {
                failures
            } else {
                failures.push(failure)
            }
        },
    }
}

/// The entries and failures after one shared component is placed and its
/// failure recorded.
pub open spec fn spec_record_common(
    profile: PlacementProfile,
    budget: RuntimeChromeBudget,
    state: (Seq<PerBankEntryView>, Seq<BudgetFailure>),
    bytes: u32,
    component: BudgetComponentRef,
    bank0_compatible: bool,
) -> (Seq<PerBankEntryView>, Seq<BudgetFailure>) {
    let placed = spec_place_common(profile, budget, state.0, bytes, component, bank0_compatible);
    match placed.1 {
        Some(failure) => (placed.0, spec_push_common_failure(state.1, failure)),
        None => (placed.0, state.1),
    }
}

/// The state after the shared kernels are placed in turn.
pub open spec fn spec_place_kernels(
    profile: PlacementProfile,
    budget: RuntimeChromeBudget,
    state: (Seq<PerBankEntryView>, Seq<BudgetFailure>),
    kernels: Seq<SharedKernelProjection>,
) -> (Seq<PerBankEntryView>, Seq<BudgetFailure>)
    decreases kernels.len(),
{
    if kernels.len() == 0 {
        state
    } else {
        let kernel = kernels.last();
        spec_record_common(
            profile,
            budget,
            spec_place_kernels(profile, budget, state, kernels.drop_last()),
            kernel.bytes,
            BudgetComponentRef::SharedKernel { id: kernel.id },
            kernel.bank0_compatible,
        )
    }
}

/// The state after the shared lookup tables are placed in turn.
pub open spec fn spec_place_luts(
    profile: PlacementProfile,
    budget: RuntimeChromeBudget,
    state: (Seq<PerBankEntryView>, Seq<BudgetFailure>),
    luts: Seq<SharedLutProjection>,
) -> (Seq<PerBankEntryView>, Seq<BudgetFailure>)
    decreases luts.len(),
{
    if luts.len() == 0 {
        state
    } else {
        let lut = luts.last();
        spec_record_common(
            profile,
            budget,
            spec_place_luts(profile, budget, state, luts.drop_last()),
            lut.bytes,
            BudgetComponentRef::SharedLut { id: lut.id },
            lut.bank0_compatible,
        )
    }
}

/// The entries and failures after the shared kernels, then the lookup
/// tables, then the dense FFN are placed; nothing is placed when they take
/// no bytes at all.
pub open spec fn spec_place_common_all(
    profile: PlacementProfile,
    budget: RuntimeChromeBudget,
    entries: Seq<PerBankEntryView>,
    view: QuantGraphBudgetView,
    aggregate_bytes: u32,
) -> (Seq<PerBankEntryView>, Seq<BudgetFailure>) {
    if aggregate_bytes == 0 {
        (entries, Seq::empty())
    } else {
        let kernels_placed = spec_place_kernels(profile, budget, (entries, Seq::empty()), view.shared_kernels@);
        let luts_placed = spec_place_luts(profile, budget, kernels_placed, view.shared_luts@);
        match view.shared_dense_ffn {
            Some(dense) => spec_record_common(
                profile,
                budget,
                luts_placed,
                dense.bytes,
                BudgetComponentRef::SharedDenseFfn,
                dense.bank0_compatible,
            ),
            None => luts_placed,
        }
    }
}

fn common_component_slot_eligible(
    budget: &RuntimeChromeBudget,
    entry: &PerBankEntry,
    profile: PlacementProfile,
    bank0_compatible: bool,
) -> (eligible: bool)
    ensures
        eligible == common_eligible(*budget, *entry, profile, bank0_compatible),
{
    let class_eligible = entry.class == BudgetSlotClass::CommonBank || (bank0_compatible && entry.class
        == BudgetSlotClass::Bank0Free);
    class_eligible && slot_accepts_profile(budget, entry.slot, profile)
}

/// Places one shared component in the first eligible slot with room, or
/// else over the cap of the first eligible slot.
pub fn place_common_component(
    profile: PlacementProfile,
    budget: &RuntimeChromeBudget,
    entries: &mut Vec<PerBankEntry>,
    component_bytes: u32,
    component: BudgetComponentRef,
    bank0_compatible: bool,
) -> (failure: Option<BudgetFailure>)
    requires
        forall|i: int| 0 <= i < old(entries)@.len() ==> i64::MIN + u32::MAX <= (#[trigger] old(entries)@[i]).effective_cap_bytes <= u32::MAX,
    ensures
        final(entries)@.len() == old(entries)@.len(),
        forall|i: int| 0 <= i < old(entries)@.len() ==> same_slot_shape(old(entries)@[i], #[trigger] final(entries)@[i]),
        forall|i: int|
            0 <= i < old(entries)@.len() && !common_eligible(*budget, old(entries)@[i], profile, bank0_compatible)
                ==> same_entry(old(entries)@[i], #[trigger] final(entries)@[i]),
        (forall|i: int| 0 <= i < old(entries)@.len() ==> !common_eligible(*budget, #[trigger] old(entries)@[i], profile, bank0_compatible))
            ==> failure == Some(
            BudgetFailure::PlacementProfileInfeasible {
                profile,
                reason: PlacementInfeasibilityReason::RequiresUnavailableSlotClass,
            },
        ),
        failure is None ==> exists|i: int|
            0 <= i < old(entries)@.len() && #[trigger] common_eligible(*budget, old(entries)@[i], profile, bank0_compatible)
                && spec_has_residual_capacity(old(entries)@[i], component_bytes) && assigned_to(
                old(entries)@[i],
                component_bytes,
                component,
                final(entries)@[i],
            ) && forall|j: int| 0 <= j < old(entries)@.len() && j != i ==> #[trigger] final(entries)@[j] == old(entries)@[j],
        failure matches Some(f) ==> f is PlacementProfileInfeasible || f is CommonBankExceedsCap,
        failure matches Some(BudgetFailure::CommonBankExceedsCap { assigned_bytes, cap_bytes, excess_bytes })
            ==> excess_bytes == sat_sub_u32(assigned_bytes, cap_bytes),
        (entry_views(final(entries)@), failure) == spec_place_common(
            profile,
            *budget,
            entry_views(old(entries)@),
            component_bytes,
            component,
            bank0_compatible,
        ),
{
    let mut eligible_at: Option<usize> = None;
    let mut room_at: Option<usize> = None;
    let mut i: usize = 0;
    while i < entries.len()
        invariant
            i <= entries@.len(),
            eligible_at is None ==> forall|j: int| 0 <= j < i ==> !#[trigger] common_eligible(*budget, entries@[j], profile, bank0_compatible),
            eligible_at matches Some(e) ==> e < entries@.len() && common_eligible(*budget, entries@[e as int], profile, bank0_compatible)
                && forall|j: int| 0 <= j < e ==> !#[trigger] common_eligible(*budget, entries@[j], profile, bank0_compatible),
            room_at matches Some(r) ==> r < entries@.len() && common_eligible(*budget, entries@[r as int], profile, bank0_compatible)
                && spec_has_residual_capacity(entries@[r as int], component_bytes) && forall|j: int|
                0 <= j < r && #[trigger] common_eligible(*budget, entries@[j], profile, bank0_compatible)
                    ==> !spec_has_residual_capacity(entries@[j], component_bytes),
            room_at matches Some(r) ==> eligible_at is Some,
            room_at is None ==> forall|j: int| 0 <= j < i && #[trigger] common_eligible(*budget, entries@[j], profile, bank0_compatible)
                ==> !spec_has_residual_capacity(entries@[j], component_bytes),
        decreases entries@.len() - i,
    {
        if common_component_slot_eligible(budget, &entries[i], profile, bank0_compatible) {
            if eligible_at.is_none() {
                eligible_at = Some(i);
            }
            if room_at.is_none() && entry_has_residual_capacity(&entries[i], component_bytes) {
                room_at = Some(i);
            }
        }
        i = i + 1;
    }
    let ghost before = entries@;
    match (room_at, eligible_at) {
        (_, None) => {
            proof {
                lemma_common_nowhere(*budget, profile, bank0_compatible, before, component_bytes, component);
            }
            Some(
                BudgetFailure::PlacementProfileInfeasible {
                    profile,
                    reason: PlacementInfeasibilityReason::RequiresUnavailableSlotClass,
                },
            )
        },
        (Some(slot_index), _) => {
            proof {
                lemma_common_fits(*budget, profile, bank0_compatible, before, component_bytes, component, slot_index as int);
            }
            assign_component_at(entries, slot_index, component_bytes, component);
            proof {
                assert forall|j: int| 0 <= j < before.len() implies same_slot_shape(before[j], #[trigger] entries@[j]) by {
                    if j != slot_index {
                        assert(entries@[j] == before[j]);
                    }
                }
                lemma_assigned_views(before, entries@, slot_index as int, component_bytes, component);
            }
            None
        },
        (None, Some(slot_index)) => {
            proof {
                lemma_common_over_cap(*budget, profile, bank0_compatible, before, component_bytes, component, slot_index as int);
            }
            assign_component_at(entries, slot_index, component_bytes, component);
            let assigned = entries[slot_index].assigned_bytes;
            let cap = cap_bytes_u32(entries[slot_index].effective_cap_bytes);
            proof {
                assert forall|j: int| 0 <= j < before.len() implies same_slot_shape(before[j], #[trigger] entries@[j]) by {
                    if j != slot_index {
                        assert(entries@[j] == before[j]);
                    }
                }
                assert(!spec_has_residual_capacity(before[slot_index as int], component_bytes));
                lemma_assigned_views(before, entries@, slot_index as int, component_bytes, component);
            }
            Some(
                BudgetFailure::CommonBankExceedsCap {
                    assigned_bytes: assigned,
                    cap_bytes: cap,
                    excess_bytes: assigned.saturating_sub(cap),
                },
            )
        },
    }
}

/// The slot predicates on values agree with those on entries.
proof fn lemma_common_views(
    budget: RuntimeChromeBudget,
    profile: PlacementProfile,
    bank0_compatible: bool,
    before: Seq<PerBankEntry>,
    bytes: u32,
)
    ensures
        forall|j: int| 0 <= j < before.len() ==> #[trigger] view_common_eligible(budget, entry_views(before)[j], profile, bank0_compatible)
            == common_eligible(budget, before[j], profile, bank0_compatible),
        forall|j: int| 0 <= j < before.len() ==> #[trigger] view_common_fits(budget, entry_views(before)[j], profile, bank0_compatible, bytes)
            == (common_eligible(budget, before[j], profile, bank0_compatible) && spec_has_residual_capacity(before[j], bytes)),
{
    let views = entry_views(before);
    assert forall|j: int| 0 <= j < before.len() implies #[trigger] view_common_eligible(budget, views[j], profile, bank0_compatible)
        == common_eligible(budget, before[j], profile, bank0_compatible) by {
        assert(views[j] == before[j]@);
    }
    assert forall|j: int| 0 <= j < before.len() implies #[trigger] view_common_fits(budget, views[j], profile, bank0_compatible, bytes)
        == (common_eligible(budget, before[j], profile, bank0_compatible) && spec_has_residual_capacity(before[j], bytes)) by {
        assert(views[j] == before[j]@);
    }
}

/// No slot may take the shared component.
proof fn lemma_common_nowhere(
    budget: RuntimeChromeBudget,
    profile: PlacementProfile,
    bank0_compatible: bool,
    before: Seq<PerBankEntry>,
    bytes: u32,
    component: BudgetComponentRef,
)
    requires
        forall|j: int| 0 <= j < before.len() ==> !#[trigger] common_eligible(budget, before[j], profile, bank0_compatible),
    ensures
        spec_place_common(profile, budget, entry_views(before), bytes, component, bank0_compatible) == (
            entry_views(before),
            Some(
                BudgetFailure::PlacementProfileInfeasible {
                    profile,
                    reason: PlacementInfeasibilityReason::RequiresUnavailableSlotClass,
                },
            ),
        ),
{
    reveal(spec_place_common);
    lemma_common_views(budget, profile, bank0_compatible, before, bytes);
    let views = entry_views(before);
    assert forall|j: int| 0 <= j < views.len() implies !#[trigger] view_common_eligible(budget, views[j], profile, bank0_compatible) by {
        assert(!common_eligible(budget, before[j], profile, bank0_compatible));
    }
}

/// Slot `r` is the first that may take the shared component and fits it.
proof fn lemma_common_fits(
    budget: RuntimeChromeBudget,
    profile: PlacementProfile,
    bank0_compatible: bool,
    before: Seq<PerBankEntry>,
    bytes: u32,
    component: BudgetComponentRef,
    r: int,
)
    requires
        0 <= r < before.len(),
        common_eligible(budget, before[r], profile, bank0_compatible),
        spec_has_residual_capacity(before[r], bytes),
        forall|j: int| 0 <= j < r && #[trigger] common_eligible(budget, before[j], profile, bank0_compatible)
            ==> !spec_has_residual_capacity(before[j], bytes),
    ensures
        spec_place_common(profile, budget, entry_views(before), bytes, component, bank0_compatible) == (
            entry_views(before).update(r, assign_view(before[r]@, bytes, component)),
            None::<BudgetFailure>,
        ),
{
    reveal(spec_place_common);
    lemma_common_views(budget, profile, bank0_compatible, before, bytes);
    let views = entry_views(before);
    assert(view_common_fits(budget, views[r], profile, bank0_compatible, bytes));
    assert(view_common_eligible(budget, views[r], profile, bank0_compatible));
    assert forall|j: int| 0 <= j < r implies !#[trigger] view_common_fits(budget, views[j], profile, bank0_compatible, bytes) by {
        if common_eligible(budget, before[j], profile, bank0_compatible) {
            assert(!spec_has_residual_capacity(before[j], bytes));
        }
    }
    let c = choose|c: int|
        0 <= c < views.len() && view_common_fits(budget, views[c], profile, bank0_compatible, bytes) && forall|j: int|
            0 <= j < c ==> !#[trigger] view_common_fits(budget, views[j], profile, bank0_compatible, bytes);
    if c > r {
        assert(!view_common_fits(budget, views[r], profile, bank0_compatible, bytes));
    }
    if c < r {
        assert(view_common_fits(budget, views[c], profile, bank0_compatible, bytes));
    }
    assert(views[r] == before[r]@);
}

/// No slot that may take the shared component fits it; slot `e` is the
/// first that may take it.
proof fn lemma_common_over_cap(
    budget: RuntimeChromeBudget,
    profile: PlacementProfile,
    bank0_compatible: bool,
    before: Seq<PerBankEntry>,
    bytes: u32,
    component: BudgetComponentRef,
    e: int,
)
    requires
        0 <= e < before.len(),
        common_eligible(budget, before[e], profile, bank0_compatible),
        forall|j: int| 0 <= j < e ==> !#[trigger] common_eligible(budget, before[j], profile, bank0_compatible),
        forall|j: int| 0 <= j < before.len() && #[trigger] common_eligible(budget, before[j], profile, bank0_compatible)
            ==> !spec_has_residual_capacity(before[j], bytes),
    ensures
        ({
            let after = assign_view(before[e]@, bytes, component);
            spec_place_common(profile, budget, entry_views(before), bytes, component, bank0_compatible) == (
                entry_views(before).update(e, after),
                Some(
                    BudgetFailure::CommonBankExceedsCap {
                        assigned_bytes: after.assigned_bytes,
                        cap_bytes: cap_u32(after.effective_cap_bytes),
                        excess_bytes: sat_sub_u32(after.assigned_bytes, cap_u32(after.effective_cap_bytes)),
                    },
                ),
            )
        }),
{
    reveal(spec_place_common);
    lemma_common_views(budget, profile, bank0_compatible, before, bytes);
    let views = entry_views(before);
    assert(view_common_eligible(budget, views[e], profile, bank0_compatible));
    assert forall|j: int| 0 <= j < views.len() implies !#[trigger] view_common_fits(budget, views[j], profile, bank0_compatible, bytes) by {
        if common_eligible(budget, before[j], profile, bank0_compatible) {
            assert(!spec_has_residual_capacity(before[j], bytes));
        }
    }
    assert forall|j: int| 0 <= j < e implies !#[trigger] view_common_eligible(budget, views[j], profile, bank0_compatible) by {
        assert(!common_eligible(budget, before[j], profile, bank0_compatible));
    }
    let c = choose|c: int|
        0 <= c < views.len() && view_common_eligible(budget, views[c], profile, bank0_compatible) && forall|j: int|
            0 <= j < c ==> !#[trigger] view_common_eligible(budget, views[j], profile, bank0_compatible);
    if c > e {
        assert(!view_common_eligible(budget, views[e], profile, bank0_compatible));
    }
    assert(views[e] == before[e]@);
}

/// The failures are all common-bank failures, with at most one cap overflow.
pub open spec fn common_failures(failures: Seq<BudgetFailure>) -> bool {
    &&& forall|k: int| 0 <= k < failures.len() ==> (#[trigger] failures[k]) is PlacementProfileInfeasible
        || failures[k] is CommonBankExceedsCap
    &&& forall|i: int, j: int|
        0 <= i < j < failures.len() && (#[trigger] failures[i]) is CommonBankExceedsCap ==> !((#[trigger] failures[j]) is CommonBankExceedsCap)
}

/// Records a common-bank failure: the cap overflows merge into the worst
/// one (by excess, then by bytes assigned); any other failure is recorded once.
#[verifier::loop_isolation(false)]
fn push_common_budget_failure(failures: &mut Vec<BudgetFailure>, failure: BudgetFailure)
    requires
        failure is PlacementProfileInfeasible || failure is CommonBankExceedsCap,
        common_failures(old(failures)@),
    ensures
        common_failures(final(failures)@),
        old(failures)@.contains(failure) ==> final(failures)@ == old(failures)@,
        final(failures)@.len() <= old(failures)@.len() + 1,
        final(failures)@.len() > 0,
        final(failures)@ == spec_push_common_failure(old(failures)@, failure),
{
    reveal(spec_push_common_failure);
    if let BudgetFailure::CommonBankExceedsCap { assigned_bytes, cap_bytes, excess_bytes } = failure {
        let mut k: usize = 0;
        while k < failures.len()
            invariant
                k <= failures@.len(),
                failures@ == old(failures)@,
                forall|q: int| 0 <= q < k ==> !((#[trigger] failures@[q]) is CommonBankExceedsCap),
            decreases failures@.len() - k,
        {
            if let BudgetFailure::CommonBankExceedsCap {
                assigned_bytes: existing_assigned,
                cap_bytes: _,
                excess_bytes: existing_excess,
            } = failures[k] {
                proof {
                    let q = choose|q: int| 0 <= q < failures@.len() && #[trigger] failures@[q] is CommonBankExceedsCap;
                    assert(failures@[k as int] is CommonBankExceedsCap);
                    if q < k {
                        assert(!(failures@[q] is CommonBankExceedsCap));
                    }
                    if q > k {
                        assert(!(failures@[q] is CommonBankExceedsCap));
                    }
                }
                if excess_bytes > existing_excess || (excess_bytes == existing_excess && assigned_bytes
                    > existing_assigned) {
                    failures.set(k, BudgetFailure::CommonBankExceedsCap { assigned_bytes, cap_bytes, excess_bytes });
                } else {
                    proof {
                        if old(failures)@.contains(failure) {
                            let q = choose|q: int| 0 <= q < old(failures)@.len() && old(failures)@[q] == failure;
                        }
                    }
                }
                assert(failures@.len() > 0);
                return;
            }
            k = k + 1;
        }
        proof {
            if old(failures)@.contains(failure) {
                let q = choose|q: int| 0 <= q < old(failures)@.len() && old(failures)@[q] == failure;
                assert(failures@[q] is CommonBankExceedsCap);
            }
        }
        failures.push(failure);
        return;
    }
    if let BudgetFailure::PlacementProfileInfeasible { profile, reason } = failure {
        let mut k: usize = 0;
        while k < failures.len()
            invariant
                k <= failures@.len(),
                failures@ == old(failures)@,
                forall|q: int| 0 <= q < k ==> #[trigger] failures@[q] != failure,
            decreases failures@.len() - k,
        {
            if let BudgetFailure::PlacementProfileInfeasible { profile: p, reason: r } = failures[k] {
                if p == profile && r == reason {
                    assert(failures@[k as int] == failure);
                    return;
                }
            }
            k = k + 1;
        }
        failures.push(failure);
    }
}


/// Places one shared component and records its failure, if any. Entries
/// that cannot take it are left alone; when nothing has failed so far, the
/// entry that took it stays within its cap.
fn place_and_record(
    profile: PlacementProfile,
    budget: &RuntimeChromeBudget,
    entries: &mut Vec<PerBankEntry>,
    failures: &mut Vec<BudgetFailure>,
    bytes: u32,
    component: BudgetComponentRef,
    bank0: bool,
)
    requires
        forall|i: int| 0 <= i < old(entries)@.len() ==> i64::MIN + u32::MAX <= (#[trigger] old(entries)@[i]).effective_cap_bytes <= u32::MAX,
        common_failures(old(failures)@),
    ensures
        final(entries)@.len() == old(entries)@.len(),
        forall|i: int| 0 <= i < old(entries)@.len() ==> same_slot_shape(old(entries)@[i], #[trigger] final(entries)@[i]),
        forall|i: int|
            0 <= i < old(entries)@.len() && old(entries)@[i].class == BudgetSlotClass::ExpertBank ==> same_entry(
                old(entries)@[i],
                #[trigger] final(entries)@[i],
            ),
        final(failures)@.len() == 0 ==> old(failures)@.len() == 0 && forall|i: int|
            0 <= i < old(entries)@.len() ==> same_entry(old(entries)@[i], #[trigger] final(entries)@[i])
                || final(entries)@[i].assigned_bytes <= final(entries)@[i].effective_cap_bytes,
        old(failures)@.len() > 0 ==> final(failures)@.len() > 0,
        common_failures(final(failures)@),
        (entry_views(final(entries)@), final(failures)@) == spec_record_common(
            profile,
            *budget,
            (entry_views(old(entries)@), old(failures)@),
            bytes,
            component,
            bank0,
        ),
{
    let ghost before = entries@;
    let placed = place_common_component(profile, budget, entries, bytes, component, bank0);
    proof {
        assert forall|i: int|
            0 <= i < before.len() && before[i].class == BudgetSlotClass::ExpertBank implies same_entry(
                before[i],
                #[trigger] entries@[i],
            ) by {
            assert(!common_eligible(*budget, before[i], profile, bank0));
        }
    }
    match placed {
        Some(failure) => {
            push_common_budget_failure(failures, failure);
        },
        None => {
            proof {
                let k = choose|k: int|
                    0 <= k < before.len() && #[trigger] common_eligible(*budget, before[k], profile, bank0)
                        && spec_has_residual_capacity(before[k], bytes) && assigned_to(before[k], bytes, component, entries@[k])
                        && forall|j: int| 0 <= j < before.len() && j != k ==> #[trigger] entries@[j] == before[j];
                assert forall|i: int| 0 <= i < before.len() implies same_entry(before[i], #[trigger] entries@[i])
                    || entries@[i].assigned_bytes <= entries@[i].effective_cap_bytes by {
                    if i != k {
                        assert(entries@[i] == before[i]);
                    }
                }
            }
        },
    }
}

/// Places the shared kernels, lookup tables and dense FFN in the common
/// bank, in that order and each by first fit, when they take any bytes at
/// all. Expert banks are left alone, and when nothing failed every bank that
/// changed stays within its cap.
pub fn place_common_bank_components(
    profile: PlacementProfile,
    budget: &RuntimeChromeBudget,
    entries: &mut Vec<PerBankEntry>,
    view: &QuantGraphBudgetView,
    aggregate_bytes: u32,
) -> (failures: Vec<BudgetFailure>)
    requires
        forall|i: int| 0 <= i < old(entries)@.len() ==> i64::MIN + u32::MAX <= (#[trigger] old(entries)@[i]).effective_cap_bytes <= u32::MAX,
    ensures
        final(entries)@.len() == old(entries)@.len(),
        forall|i: int| 0 <= i < old(entries)@.len() ==> same_slot_shape(old(entries)@[i], #[trigger] final(entries)@[i]),
        forall|i: int|
            0 <= i < old(entries)@.len() && old(entries)@[i].class == BudgetSlotClass::ExpertBank ==> same_entry(
                old(entries)@[i],
                #[trigger] final(entries)@[i],
            ),
        aggregate_bytes == 0 ==> failures@.len() == 0 && forall|i: int|
            0 <= i < old(entries)@.len() ==> same_entry(old(entries)@[i], #[trigger] final(entries)@[i]),
        failures@.len() == 0 ==> forall|i: int|
            0 <= i < old(entries)@.len() ==> same_entry(old(entries)@[i], #[trigger] final(entries)@[i])
                || final(entries)@[i].assigned_bytes <= final(entries)@[i].effective_cap_bytes,
        common_failures(failures@),
        (entry_views(final(entries)@), failures@) == spec_place_common_all(
            profile,
            *budget,
            entry_views(old(entries)@),
            *view,
            aggregate_bytes,
        ),
{
    let mut failures: Vec<BudgetFailure> = Vec::new();
    if aggregate_bytes == 0 {
        return failures;
    }
    let ghost start = entries@;
    let mut k: usize = 0;
    proof {
        assert(view.shared_kernels@.take(0) =~= Seq::<SharedKernelProjection>::empty());
    }
    while k < view.shared_kernels.len()
        invariant
            (entry_views(entries@), failures@) == spec_place_kernels(
                profile,
                *budget,
                (entry_views(start), Seq::empty()),
                view.shared_kernels@.take(k as int),
            ),
            k <= view.shared_kernels@.len(),
            entries@.len() == start.len(),
            forall|i: int| 0 <= i < start.len() ==> i64::MIN + u32::MAX <= (#[trigger] start[i]).effective_cap_bytes <= u32::MAX,
            forall|i: int| 0 <= i < start.len() ==> same_slot_shape(start[i], #[trigger] entries@[i]),
            forall|i: int|
                0 <= i < start.len() && start[i].class == BudgetSlotClass::ExpertBank ==> same_entry(start[i], #[trigger] entries@[i]),
            failures@.len() == 0 ==> forall|i: int|
                0 <= i < start.len() ==> same_entry(start[i], #[trigger] entries@[i]) || entries@[i].assigned_bytes
                    <= entries@[i].effective_cap_bytes,
            common_failures(failures@),
        decreases view.shared_kernels@.len() - k,
    {
        let kernel = &view.shared_kernels[k];
        let ghost before = entries@;
        place_and_record(
            profile,
            budget,
            entries,
            &mut failures,
            kernel.bytes,
            BudgetComponentRef::SharedKernel { id: KernelSpecId(kernel.id.0.clone()) },
            kernel.bank0_compatible,
        );
        proof {
            lemma_common_step(start, before, entries@);
            assert(view.shared_kernels@.take(k + 1).drop_last() =~= view.shared_kernels@.take(k as int));
        }
        k = k + 1;
    }
    let ghost kernels_placed = (entry_views(entries@), failures@);
    proof {
        assert(view.shared_kernels@.take(k as int) =~= view.shared_kernels@);
        assert(view.shared_luts@.take(0) =~= Seq::<SharedLutProjection>::empty());
    }
    let mut l: usize = 0;
    while l < view.shared_luts.len()
        invariant
            (entry_views(entries@), failures@) == spec_place_luts(profile, *budget, kernels_placed, view.shared_luts@.take(l as int)),
            l <= view.shared_luts@.len(),
            entries@.len() == start.len(),
            forall|i: int| 0 <= i < start.len() ==> i64::MIN + u32::MAX <= (#[trigger] start[i]).effective_cap_bytes <= u32::MAX,
            forall|i: int| 0 <= i < start.len() ==> same_slot_shape(start[i], #[trigger] entries@[i]),
            forall|i: int|
                0 <= i < start.len() && start[i].class == BudgetSlotClass::ExpertBank ==> same_entry(start[i], #[trigger] entries@[i]),
            failures@.len() == 0 ==> forall|i: int|
                0 <= i < start.len() ==> same_entry(start[i], #[trigger] entries@[i]) || entries@[i].assigned_bytes
                    <= entries@[i].effective_cap_bytes,
            common_failures(failures@),
        decreases view.shared_luts@.len() - l,
    {
        let lut = &view.shared_luts[l];
        let ghost before = entries@;
        place_and_record(
            profile,
            budget,
            entries,
            &mut failures,
            lut.bytes,
            BudgetComponentRef::SharedLut { id: lut.id.clone() },
            lut.bank0_compatible,
        );
        proof {
            lemma_common_step(start, before, entries@);
            assert(view.shared_luts@.take(l + 1).drop_last() =~= view.shared_luts@.take(l as int));
        }
        l = l + 1;
    }
    proof {
        assert(view.shared_luts@.take(l as int) =~= view.shared_luts@);
    }
    if let Some(dense) = view.shared_dense_ffn {
        let ghost before = entries@;
        place_and_record(
            profile,
            budget,
            entries,
            &mut failures,
            dense.bytes,
            BudgetComponentRef::SharedDenseFfn,
            dense.bank0_compatible,
        );
        proof {
            lemma_common_step(start, before, entries@);
        }
    }
    failures
}

/// The entries of one common placement step keep the facts of the whole
/// placement since `start`.
proof fn lemma_common_step(start: Seq<PerBankEntry>, before: Seq<PerBankEntry>, after: Seq<PerBankEntry>)
    requires
        start.len() == before.len() == after.len(),
        forall|i: int| 0 <= i < start.len() ==> same_slot_shape(start[i], #[trigger] before[i]),
        forall|i: int| 0 <= i < start.len() ==> same_slot_shape(before[i], #[trigger] after[i]),
    ensures
        forall|i: int| 0 <= i < start.len() ==> same_slot_shape(start[i], #[trigger] after[i]),
{
    assert forall|i: int| 0 <= i < start.len() implies same_slot_shape(start[i], #[trigger] after[i]) by {
        assert(same_slot_shape(start[i], before[i]));
        assert(same_slot_shape(before[i], after[i]));
    }
}

// ----------------------------------------------------------- accumulators

/// The largest magnitude a reduction site's accumulator reaches.
#[derive(Clone, Debug, PartialEq, Eq)]
pub struct AccumulatorBound {
    pub site: ReductionSiteId,
    pub projected_max_abs: u64,
    pub i16_safe: bool,
    pub i32_safe: bool,
}

/// The projected largest magnitude: every term at its bound, plus the bias.
pub open spec fn spec_projected_max_abs(site: ReductionSiteProjection) -> int {
    site.term_count * (site.input_max_abs_q * site.weight_max_abs_q) + match site.bias_max_abs_q {
        Some(bias) => bias as int,
        None => 0,
    }
}

/// The bound of one site; refused when it leaves 64 bits.
pub fn accumulator_bound(site: &ReductionSiteProjection, index: usize) -> (bound: Result<AccumulatorBound, BudgetFailure>)
    ensures
        spec_projected_max_abs(*site) > u64::MAX ==> bound == Err::<AccumulatorBound, BudgetFailure>(
            malformed_failure(BudgetField::ReductionSiteProjectedMaxAbs { index: index as u64 }),
        ),
        spec_projected_max_abs(*site) <= u64::MAX ==> (bound matches Ok(b) && b.site == site.site
            && b.projected_max_abs == spec_projected_max_abs(*site) && b.i16_safe == (b.projected_max_abs
            <= i16::MAX) && b.i32_safe == (b.projected_max_abs <= i32::MAX)),
{
    proof {
        assert(site.input_max_abs_q * site.weight_max_abs_q <= 0xffff_ffff * 0xffff_ffff) by (nonlinear_arith)
            requires
                site.input_max_abs_q <= 0xffff_ffff,
                site.weight_max_abs_q <= 0xffff_ffff,
        ;
    }
    let raw: u128 = site.input_max_abs_q as u128 * site.weight_max_abs_q as u128;
    proof {
        assert(site.term_count * raw <= 0xffff_ffff * (0xffff_ffffu128 * 0xffff_ffffu128)) by (nonlinear_arith)
            requires
                raw <= 0xffff_ffff * 0xffff_ffff,
                site.term_count <= 0xffff_ffff,
        ;
    }
    let sum: u128 = site.term_count as u128 * raw;
    let bias: u128 = match site.bias_max_abs_q {
        Some(bias) => bias as u128,
        None => 0,
    };
    let projected = sum + bias;
    if projected > u64::MAX as u128 {
        return Err(malformed(BudgetField::ReductionSiteProjectedMaxAbs { index: index as u64 }));
    }
    let projected = projected as u64;
    Ok(AccumulatorBound {
        site: ReductionSiteId(site.site.0.clone()),
        projected_max_abs: projected,
        i16_safe: projected <= i16::MAX as u64,
        i32_safe: projected <= i32::MAX as u64,
    })
}

/// The bound of `site`, when its magnitude fits 64 bits.
pub open spec fn spec_accumulator_bound(site: ReductionSiteProjection) -> AccumulatorBound {
    let m = spec_projected_max_abs(site);
    AccumulatorBound {
        site: site.site,
        projected_max_abs: m as u64,
        i16_safe: m <= i16::MAX,
        i32_safe: m <= i32::MAX,
    }
}

/// The bound does not fit the accumulator the range policy allows.
pub open spec fn bound_unsafe(bound: AccumulatorBound, single_i16_only_locked: bool) -> bool {
    !bound.i32_safe || (single_i16_only_locked && !bound.i16_safe)
}

/// The bounds and failures of the reduction sites, site by site.
pub open spec fn spec_accumulator_maxima(
    sites: Seq<ReductionSiteProjection>,
    single_i16_only_locked: bool,
) -> (Seq<AccumulatorBound>, Seq<BudgetFailure>)
    decreases sites.len(),
{
    if sites.len() == 0 {
        (Seq::empty(), Seq::empty())
    } else {
        let (bounds, failures) = spec_accumulator_maxima(sites.drop_last(), single_i16_only_locked);
        let index = sites.len() - 1;
        let site = sites.last();
        if spec_projected_max_abs(site) > u64::MAX {
            (
                bounds,
                failures.push(malformed_failure(BudgetField::ReductionSiteProjectedMaxAbs { index: index as u64 })),
            )
        } else {
            let bound = spec_accumulator_bound(site);
            (
                bounds.push(bound),
                if bound_unsafe(bound, single_i16_only_locked) {
                    failures.push(
                        BudgetFailure::AccumulatorExceedsI32 {
                            site: bound.site,
                            projected_max_abs: bound.projected_max_abs,
                        },
                    )
                } else {
                    failures
                },
            )
        }
    }
}

/// The bound of every reduction site, and a failure for each site whose
/// bound is refused or does not fit an i32 accumulator (an i16 one, when the
/// range policy locks single-i16 accumulation).
pub fn accumulator_maxima(
    sites: &Vec<ReductionSiteProjection>,
    single_i16_only_locked: bool,
) -> (result: (Vec<AccumulatorBound>, Vec<BudgetFailure>))
    ensures
        result.0@ == spec_accumulator_maxima(sites@, single_i16_only_locked).0,
        result.1@ == spec_accumulator_maxima(sites@, single_i16_only_locked).1,
        result.0@.len() <= sites@.len(),
        forall|k: int| 0 <= k < result.0@.len() ==> {
            let bound = #[trigger] result.0@[k];
            bound.i32_safe && (single_i16_only_locked ==> bound.i16_safe)
        } || result.1@.len() > 0,
        result.1@.len() == 0 ==> result.0@.len() == sites@.len() && forall|k: int|
            0 <= k < sites@.len() ==> {
                let bound = #[trigger] result.0@[k];
                &&& bound.site == sites@[k].site
                &&& bound.projected_max_abs == spec_projected_max_abs(sites@[k])
                &&& bound.projected_max_abs <= i32::MAX
                &&& (single_i16_only_locked ==> bound.projected_max_abs <= i16::MAX)
            },
{
    let mut bounds: Vec<AccumulatorBound> = Vec::new();
    let mut failures: Vec<BudgetFailure> = Vec::new();
    let mut i: usize = 0;
    while i < sites.len()
        invariant
            i <= sites@.len(),
            bounds@.len() <= i,
            failures@.len() == 0 ==> bounds@.len() == i && forall|k: int|
                0 <= k < i ==> {
                    let bound = #[trigger] bounds@[k];
                    &&& bound.site == sites@[k].site
                    &&& bound.projected_max_abs == spec_projected_max_abs(sites@[k])
                    &&& bound.projected_max_abs <= i32::MAX
                    &&& (single_i16_only_locked ==> bound.projected_max_abs <= i16::MAX)
                },
            forall|k: int| 0 <= k < bounds@.len() ==> {
                let bound = #[trigger] bounds@[k];
                bound.i32_safe && (single_i16_only_locked ==> bound.i16_safe)
            } || failures@.len() > 0,
            bounds@ == spec_accumulator_maxima(sites@.take(i as int), single_i16_only_locked).0,
            failures@ == spec_accumulator_maxima(sites@.take(i as int), single_i16_only_locked).1,
        decreases sites@.len() - i,
    {
        proof {
            assert(sites@.take(i + 1).drop_last() =~= sites@.take(i as int));
            assert(sites@.take(i + 1).last() == sites@[i as int]);
        }
        match accumulator_bound(&sites[i], i) {
            Err(failure) => {
                failures.push(failure);
            },
            Ok(bound) => {
                if !bound.i32_safe || (single_i16_only_locked && !bound.i16_safe) {
                    failures.push(
                        BudgetFailure::AccumulatorExceedsI32 {
                            site: ReductionSiteId(bound.site.0.clone()),
                            projected_max_abs: bound.projected_max_abs,
                        },
                    );
                }
                bounds.push(bound);
            },
        }
        i = i + 1;
    }
    proof {
        assert(sites@.take(sites@.len() as int) =~= sites@);
    }
    (bounds, failures)
}

// ------------------------------------------------------ memory and switches

/// A projected memory peak and where it comes from.
#[derive(Clone, Copy, Debug, PartialEq, Eq, Structural)]
pub struct ProjectedSize {
    pub peak_bytes: u32,
    pub source: ProjectedSizeSource,
}

/// A projected switch count per token.
#[derive(Clone, Copy, Debug, PartialEq, Eq, Structural)]
pub struct ProjectedSwitchCount {
    pub upper_bound: u16,
    pub expected_q16_16: Option<u32>,
    pub decision_value: u16,
    pub source: SwitchProjectionSource,
}

/// The failures of the three memory peaks against the runtime caps, in the
/// order WRAM, SRAM, HRAM.
pub open spec fn spec_memory_peak_failures(
    wram: ProjectedSize,
    sram: ProjectedSize,
    hram: ProjectedSize,
    budget: RuntimeChromeBudget,
) -> Seq<BudgetFailure> {
    let caps = budget.memory_caps;
    let w = if wram.peak_bytes > caps.wram_usable_bytes {
        seq![BudgetFailure::WramPeakExceedsCap { peak: wram.peak_bytes, cap: caps.wram_usable_bytes }]
    } else {
        Seq::empty()
    };
    let s = if sram.peak_bytes > caps.sram_usable_bytes {
        seq![BudgetFailure::SramPeakExceedsCap { peak: sram.peak_bytes, cap: caps.sram_usable_bytes }]
    } else {
        Seq::empty()
    };
    let h = if hram.peak_bytes > caps.hram_usable_bytes {
        seq![BudgetFailure::HramPeakExceedsCap { peak: hram.peak_bytes, cap: caps.hram_usable_bytes }]
    } else {
        Seq::empty()
    };
    w + s + h
}

pub fn memory_peak_failures(
    wram: &ProjectedSize,
    sram: &ProjectedSize,
    hram: &ProjectedSize,
    budget: &RuntimeChromeBudget,
) -> (failures: Vec<BudgetFailure>)
    ensures
        failures@ == spec_memory_peak_failures(*wram, *sram, *hram, *budget),
{
    let mut failures: Vec<BudgetFailure> = Vec::new();
    let caps = budget.memory_caps;
    if wram.peak_bytes > caps.wram_usable_bytes {
        failures.push(BudgetFailure::WramPeakExceedsCap { peak: wram.peak_bytes, cap: caps.wram_usable_bytes });
    }
    if sram.peak_bytes > caps.sram_usable_bytes {
        failures.push(BudgetFailure::SramPeakExceedsCap { peak: sram.peak_bytes, cap: caps.sram_usable_bytes });
    }
    if hram.peak_bytes > caps.hram_usable_bytes {
        failures.push(BudgetFailure::HramPeakExceedsCap { peak: hram.peak_bytes, cap: caps.hram_usable_bytes });
    }
    assert(failures@ =~= spec_memory_peak_failures(*wram, *sram, *hram, *budget));
    failures
}

/// The caps that the compile objective sets on switches per token.
#[derive(Clone, Copy, Debug, PartialEq, Eq, Structural)]
pub struct CompileObjective {
    pub max_bank_switches_per_token: Option<u16>,
    pub max_sram_page_switches_per_token: Option<u16>,
}

/// The failures of the two projected switch counts against the objective's
/// caps, bank switches first.
pub open spec fn spec_switch_count_failures(
    objective: CompileObjective,
    bank: ProjectedSwitchCount,
    page: ProjectedSwitchCount,
) -> Seq<BudgetFailure> {
    let b = match objective.max_bank_switches_per_token {
        Some(cap) => if bank.decision_value > cap {
            seq![
                BudgetFailure::BankSwitchesPerTokenOverCap {
                    decision_value: bank.decision_value,
                    upper_bound: bank.upper_bound,
                    cap,
                    source: bank.source,
                },
            ]
        } else {
            Seq::empty()
        },
        None => Seq::empty(),
    };
    let p = match objective.max_sram_page_switches_per_token {
        Some(cap) => if page.decision_value > cap {
            seq![
                BudgetFailure::SramPageSwitchesPerTokenOverCap {
                    decision_value: page.decision_value,
                    upper_bound: page.upper_bound,
                    cap,
                    source: page.source,
                },
            ]
        } else {
            Seq::empty()
        },
        None => Seq::empty(),
    };
    b + p
}

pub fn switch_count_failures(
    objective: &CompileObjective,
    bank: &ProjectedSwitchCount,
    page: &ProjectedSwitchCount,
) -> (failures: Vec<BudgetFailure>)
    ensures
        failures@ == spec_switch_count_failures(*objective, *bank, *page),
{
    let mut failures: Vec<BudgetFailure> = Vec::new();
    if let Some(cap) = objective.max_bank_switches_per_token {
        if bank.decision_value > cap {
            failures.push(BudgetFailure::BankSwitchesPerTokenOverCap {
                decision_value: bank.decision_value,
                upper_bound: bank.upper_bound,
                cap,
                source: bank.source,
            });
        }
    }
    if let Some(cap) = objective.max_sram_page_switches_per_token {
        if page.decision_value > cap {
            failures.push(BudgetFailure::SramPageSwitchesPerTokenOverCap {
                decision_value: page.decision_value,
                upper_bound: page.upper_bound,
                cap,
                source: page.source,
            });
        }
    }
    assert(failures@ =~= spec_switch_count_failures(*objective, *bank, *page));
    failures
}

/// The bank switches per token, as the routing projects them.
pub open spec fn spec_bank_switches(view: QuantGraphBudgetView) -> ProjectedSwitchCount {
    ProjectedSwitchCount {
        upper_bound: view.routing.projected_bank_switches_per_token,
        expected_q16_16: view.routing.expected_bank_switches_q16_16,
        decision_value: view.routing.projected_bank_switches_per_token,
        source: SwitchProjectionSource::ConservativeStaticUpperBound,
    }
}

/// The SRAM page switches per token: the sequence state's page count, a
/// conservative upper bound.
pub open spec fn spec_page_switches(state: SequenceStateProjection) -> ProjectedSwitchCount {
    ProjectedSwitchCount {
        upper_bound: state.projected_sram_page_switches_per_token,
        expected_q16_16: None,
        decision_value: state.projected_sram_page_switches_per_token,
        source: SwitchProjectionSource::ConservativeStaticUpperBound,
    }
}


// ---------------------------------------------------------- view semantics

#[verifier::opaque]
pub open spec fn str_lt(a: String, b: String) -> bool {
    bytes_lt(utf8(a@), utf8(b@))
}

/// Each adjacent pair of `layers` is in order.
pub open spec fn layers_sorted(layers: Seq<LayerId>) -> bool {
    forall|i: int| 0 <= i < layers.len() - 1 ==> (#[trigger] layers[i]).0 <= layers[i + 1].0
}

pub open spec fn expert_key_lt(a: ExpertProjection, b: ExpertProjection) -> bool {
    a.layer.0 < b.layer.0 || (a.layer.0 == b.layer.0 && a.expert.0 < b.expert.0)
}

/// Each adjacent pair of experts is strictly in (layer, expert) order.
pub open spec fn experts_sorted(experts: Seq<ExpertProjection>) -> bool {
    forall|i: int| 0 <= i < experts.len() - 1 ==> expert_key_lt(#[trigger] experts[i], experts[i + 1])
}

pub open spec fn kernels_sorted(kernels: Seq<SharedKernelProjection>) -> bool {
    forall|i: int| 0 <= i < kernels.len() - 1 ==> str_lt((#[trigger] kernels[i]).id.0, kernels[i + 1].id.0)
}

pub open spec fn luts_sorted(luts: Seq<SharedLutProjection>) -> bool {
    forall|i: int| 0 <= i < luts.len() - 1 ==> str_lt((#[trigger] luts[i]).id, luts[i + 1].id)
}

pub open spec fn sites_sorted(sites: Seq<ReductionSiteProjection>) -> bool {
    forall|i: int| 0 <= i < sites.len() - 1 ==> #[trigger] str_lt(sites[i].site.0, sites[i + 1].site.0)
}

/// What expert `i` of the view is refused for.
pub open spec fn expert_fault(view: QuantGraphBudgetView, i: int) -> Option<BudgetField> {
    let expert = view.experts@[i];
    if !view.layers@.contains(expert.layer) {
        Some(BudgetField::ExpertLayer { index: i as u64 })
    } else if expert.rows == 0 {
        Some(BudgetField::ExpertRows { index: i as u64 })
    } else if expert.cols == 0 {
        Some(BudgetField::ExpertCols { index: i as u64 })
    } else {
        None
    }
}

/// A site that sums no terms but claims a nonzero bound.
pub open spec fn site_fault(site: ReductionSiteProjection) -> bool {
    site.term_count == 0 && (site.input_max_abs_q != 0 || site.weight_max_abs_q != 0 || match site.bias_max_abs_q {
        Some(bias) => bias != 0,
        None => false,
    })
}

/// The first refused expert among the first `n`.
pub open spec fn first_expert_fault(view: QuantGraphBudgetView, n: int) -> Option<BudgetField>
    decreases n,
{
    if n <= 0 {
        None
    } else if first_expert_fault(view, n - 1) is Some {
        first_expert_fault(view, n - 1)
    } else {
        expert_fault(view, n - 1)
    }
}

/// The first refused site among the first `n`.
pub open spec fn first_site_fault(sites: Seq<ReductionSiteProjection>, n: int) -> Option<BudgetField>
    decreases n,
{
    if n <= 0 {
        None
    } else if first_site_fault(sites, n - 1) is Some {
        first_site_fault(sites, n - 1)
    } else if site_fault(sites[n - 1]) {
        Some(BudgetField::ReductionSiteTermCount { index: (n - 1) as u64 })
    } else {
        None
    }
}

/// The field of `view` that the semantic checks refuse first.
pub open spec fn view_semantics_fault(view: QuantGraphBudgetView) -> Option<BudgetField> {
    if !layers_sorted(view.layers@) {
        Some(BudgetField::Layers)
    } else if !experts_sorted(view.experts@) {
        Some(BudgetField::Experts)
    } else if !kernels_sorted(view.shared_kernels@) {
        Some(BudgetField::SharedKernels)
    } else if !luts_sorted(view.shared_luts@) {
        Some(BudgetField::SharedLuts)
    } else if !sites_sorted(view.reduction_sites@) {
        Some(BudgetField::ReductionSites)
    } else if first_expert_fault(view, view.experts@.len() as int) is Some {
        first_expert_fault(view, view.experts@.len() as int)
    } else {
        first_site_fault(view.reduction_sites@, view.reduction_sites@.len() as int)
    }
}

proof fn lemma_first_expert_fault_stays(view: QuantGraphBudgetView, k: int, n: int)
    requires
        0 <= k <= n,
        first_expert_fault(view, k) is Some,
    ensures
        first_expert_fault(view, n) == first_expert_fault(view, k),
    decreases n - k,
{
    if k < n {
        lemma_first_expert_fault_stays(view, k, n - 1);
    }
}

proof fn lemma_first_site_fault_stays(sites: Seq<ReductionSiteProjection>, k: int, n: int)
    requires
        0 <= k <= n,
        first_site_fault(sites, k) is Some,
    ensures
        first_site_fault(sites, n) == first_site_fault(sites, k),
    decreases n - k,
{
    if k < n {
        lemma_first_site_fault_stays(sites, k, n - 1);
    }
}

fn layers_contain(layers: &Vec<LayerId>, layer: LayerId) -> (found: bool)
    ensures
        found == layers@.contains(layer),
{
    let mut i: usize = 0;
    while i < layers.len()
        invariant
            i <= layers@.len(),
            forall|k: int| 0 <= k < i ==> layers@[k] != layer,
        decreases layers@.len() - i,
    {
        if layers[i] == layer {
            return true;
        }
        i = i + 1;
    }
    false
}

#[verifier::rlimit(60)]
fn check_layers_sorted(layers: &Vec<LayerId>) -> (sorted: bool)
    ensures
        sorted == layers_sorted(layers@),
{
    let mut i: usize = 1;
    while i < layers.len()
        invariant
            1 <= i,
            forall|k: int| 0 <= k < i - 1 && k < layers@.len() - 1 ==> (#[trigger] layers@[k]).0 <= layers@[k + 1].0,
        decreases layers@.len() - i,
    {
        if layers[i - 1].0 > layers[i].0 {
            return false;
        }
        i = i + 1;
    }
    true
}

fn check_experts_sorted(experts: &Vec<ExpertProjection>) -> (sorted: bool)
    ensures
        sorted == experts_sorted(experts@),
{
    let mut i: usize = 1;
    while i < experts.len()
        invariant
            1 <= i,
            forall|k: int| 0 <= k < i - 1 && k < experts@.len() - 1 ==> expert_key_lt(#[trigger] experts@[k], experts@[k + 1]),
        decreases experts@.len() - i,
    {
        let a = experts[i - 1];
        let b = experts[i];
        if !(a.layer.0 < b.layer.0 || (a.layer.0 == b.layer.0 && a.expert.0 < b.expert.0)) {
            return false;
        }
        i = i + 1;
    }
    true
}

fn check_kernels_sorted(kernels: &Vec<SharedKernelProjection>) -> (sorted: bool)
    ensures
        sorted == kernels_sorted(kernels@),
{
    let mut i: usize = 1;
    while i < kernels.len()
        invariant
            1 <= i,
            forall|k: int| 0 <= k < i - 1 && k < kernels@.len() - 1 ==> str_lt((#[trigger] kernels@[k]).id.0, kernels@[k + 1].id.0),
        decreases kernels@.len() - i,
    {
        proof {
            reveal(str_lt);
        }
        if !string_lt(&kernels[i - 1].id.0, &kernels[i].id.0) {
            return false;
        }
        i = i + 1;
    }
    true
}

fn check_luts_sorted(luts: &Vec<SharedLutProjection>) -> (sorted: bool)
    ensures
        sorted == luts_sorted(luts@),
{
    let mut i: usize = 1;
    while i < luts.len()
        invariant
            1 <= i,
            forall|k: int| 0 <= k < i - 1 && k < luts@.len() - 1 ==> str_lt((#[trigger] luts@[k]).id, luts@[k + 1].id),
        decreases luts@.len() - i,
    {
        proof {
            reveal(str_lt);
        }
        if !string_lt(&luts[i - 1].id, &luts[i].id) {
            return false;
        }
        i = i + 1;
    }
    true
}

fn sites_ordered(a: &ReductionSiteProjection, b: &ReductionSiteProjection) -> (lt: bool)
    ensures
        lt == str_lt(a.site.0, b.site.0),
{
    proof {
        reveal(str_lt);
    }
    string_lt(&a.site.0, &b.site.0)
}

fn check_sites_sorted(sites: &Vec<ReductionSiteProjection>) -> (sorted: bool)
    ensures
        sorted == sites_sorted(sites@),
{
    let mut i: usize = 1;
    while i < sites.len()
        invariant
            1 <= i,
            forall|k: int| 0 <= k < i - 1 && k < sites@.len() - 1 ==> #[trigger] str_lt(sites@[k].site.0, sites@[k + 1].site.0),
        decreases sites@.len() - i,
    {
        let ordered = sites_ordered(&sites[i - 1], &sites[i]);
        if !ordered {
            assert(!str_lt(sites@[i - 1].site.0, sites@[(i - 1) + 1].site.0));
            return false;
        }
        i = i + 1;
    }
    true
}

fn check_experts(view: &QuantGraphBudgetView) -> (fault: Option<BudgetField>)
    ensures
        fault == first_expert_fault(*view, view.experts@.len() as int),
{
    let mut e: usize = 0;
    while e < view.experts.len()
        invariant
            e <= view.experts@.len(),
            first_expert_fault(*view, e as int) is None,
        decreases view.experts@.len() - e,
    {
        let expert = view.experts[e];
        let field = if !layers_contain(&view.layers, expert.layer) {
            Some(BudgetField::ExpertLayer { index: e as u64 })
        } else if expert.rows == 0 {
            Some(BudgetField::ExpertRows { index: e as u64 })
        } else if expert.cols == 0 {
            Some(BudgetField::ExpertCols { index: e as u64 })
        } else {
            None
        };
        assert(field == expert_fault(*view, e as int));
        if field.is_some() {
            proof {
                lemma_first_expert_fault_stays(*view, e + 1, view.experts@.len() as int);
            }
            return field;
        }
        e = e + 1;
    }
    None
}

fn check_sites(sites: &Vec<ReductionSiteProjection>) -> (fault: Option<BudgetField>)
    ensures
        fault == first_site_fault(sites@, sites@.len() as int),
{
    let mut r: usize = 0;
    while r < sites.len()
        invariant
            r <= sites@.len(),
            first_site_fault(sites@, r as int) is None,
        decreases sites@.len() - r,
    {
        let site = &sites[r];
        let bias_nonzero = match site.bias_max_abs_q {
            Some(bias) => bias != 0,
            None => false,
        };
        if site.term_count == 0 && (site.input_max_abs_q != 0 || site.weight_max_abs_q != 0 || bias_nonzero) {
            proof {
                lemma_first_site_fault_stays(sites@, r + 1, sites@.len() as int);
            }
            return Some(BudgetField::ReductionSiteTermCount { index: r as u64 });
        }
        r = r + 1;
    }
    None
}

impl QuantGraphBudgetView {
    /// Checks that the view is in canonical order, that every expert sits in
    /// a listed layer with a nonempty matrix, and that no site without terms
    /// claims a bound.
    pub fn validate_semantics(&self) -> (result: Result<(), QuantGraphBudgetViewError>)
        ensures
            match view_semantics_fault(*self) {
                Some(field) => result == Err::<(), QuantGraphBudgetViewError>(QuantGraphBudgetViewError::Malformed { field }),
                None => result is Ok,
            },
    {
        let fault = if !check_layers_sorted(&self.layers) {
            Some(BudgetField::Layers)
        } else if !check_experts_sorted(&self.experts) {
            Some(BudgetField::Experts)
        } else if !check_kernels_sorted(&self.shared_kernels) {
            Some(BudgetField::SharedKernels)
        } else if !check_luts_sorted(&self.shared_luts) {
            Some(BudgetField::SharedLuts)
        } else if !check_sites_sorted(&self.reduction_sites) {
            Some(BudgetField::ReductionSites)
        } else {
            match check_experts(self) {
                Some(field) => Some(field),
                None => check_sites(&self.reduction_sites),
            }
        };
        match fault {
            Some(field) => Err(QuantGraphBudgetViewError::Malformed { field }),
            None => Ok(()),
        }
    }
}


// -------------------------------------------------------------- projection

/// Everything the budget projects of a graph.
#[derive(Clone, Debug, PartialEq, Eq)]
pub struct BudgetProjectionSection {
    pub per_expert_payload: Vec<PerExpertEntry>,
    pub per_bank_occupancy: Vec<PerBankEntry>,
    pub common_bank_footprint: CommonBankFootprintSection,
    pub accumulator_maxima: Vec<AccumulatorBound>,
    pub projected_wram: ProjectedSize,
    pub projected_sram: ProjectedSize,
    pub projected_hram: ProjectedSize,
    pub projected_bank_switches_per_token: ProjectedSwitchCount,
    pub projected_sram_page_switches_per_token: ProjectedSwitchCount,
    pub routing_model: RoutingModelSection,
}

fn copy_caps(caps: &Vec<PlacementProfile>) -> (copy: Vec<PlacementProfile>)
    ensures
        copy@ == caps@,
{
    let mut copy: Vec<PlacementProfile> = Vec::new();
    let mut i: usize = 0;
    while i < caps.len()
        invariant
            i <= caps@.len(),
            copy@ == caps@.subrange(0, i as int),
        decreases caps@.len() - i,
    {
        copy.push(caps[i]);
        i = i + 1;
    }
    assert(caps@.subrange(0, caps@.len() as int) =~= caps@);
    copy
}

/// The entries in order, without their keys.
fn unkey_entries(keyed: Vec<(u64, PerBankEntry)>) -> (entries: Vec<PerBankEntry>)
    ensures
        entries@.len() == keyed@.len(),
        forall|i: int| 0 <= i < keyed@.len() ==> #[trigger] entries@[i] == keyed@[i].1,
{
    let ghost initial = keyed@;
    let mut keyed = keyed;
    let mut entries: Vec<PerBankEntry> = Vec::new();
    while keyed.len() > 0
        invariant
            entries@.len() + keyed@.len() == initial.len(),
            forall|i: int| 0 <= i < entries@.len() ==> #[trigger] entries@[i] == initial[i].1,
            forall|i: int| 0 <= i < keyed@.len() ==> #[trigger] keyed@[i] == initial[entries@.len() + i],
        decreases keyed@.len(),
    {
        let ghost before = keyed@;
        let (_, entry) = keyed.remove(0);
        entries.push(entry);
        proof {
            assert forall|i: int| 0 <= i < keyed@.len() implies #[trigger] keyed@[i] == initial[entries@.len() + i] by {
                assert(keyed@[i] == before[i + 1]);
            }
        }
    }
    entries
}

/// An entry of a slot before anything is placed in it.
pub open spec fn fresh_entry(entry: PerBankEntry) -> bool {
    &&& entry.assigned_bytes == 0
    &&& entry.assigned_components@.len() == 0
    &&& entry.effective_cap_bytes == entry.usable_bytes - entry.reserved_slack
    &&& entry.residual_bytes == spec_residual_i32(entry.effective_cap_bytes as int)
}

/// One empty entry per ROM slot of the budget, in order of slot.
/// `entry` is the empty entry of `slot`.
pub open spec fn entry_of_slot(entry: PerBankEntry, slot: RomBudgetSlot) -> bool {
    &&& fresh_entry(entry)
    &&& entry.slot == slot.id
    &&& entry.class == slot.class
    &&& entry.usable_bytes == slot.usable_bytes
    &&& entry.reserved_slack == slot.reserved_slack
    &&& entry.placement_caps@ == slot.placement_caps@
}

/// Entry `i` is the empty entry of some slot.
pub open spec fn entry_has_slot(entries: Seq<PerBankEntry>, slots: Seq<RomBudgetSlot>, i: int) -> bool {
    exists|k: int| 0 <= k < slots.len() && entry_of_slot(entries[i], #[trigger] slots[k])
}

/// Slot `k` has its empty entry among `entries`.
pub open spec fn slot_has_entry(entries: Seq<PerBankEntry>, slots: Seq<RomBudgetSlot>, k: int) -> bool {
    exists|i: int| 0 <= i < entries.len() && entry_of_slot(#[trigger] entries[i], slots[k])
}

/// Each entry is the empty entry of a slot, and each slot has its entry.
#[verifier::opaque]
pub open spec fn entries_of_slots(entries: Seq<PerBankEntry>, slots: Seq<RomBudgetSlot>) -> bool {
    &&& forall|i: int| 0 <= i < entries.len() ==> #[trigger] entry_has_slot(entries, slots, i)
    &&& forall|k: int| 0 <= k < slots.len() ==> #[trigger] slot_has_entry(entries, slots, k)
}

/// The empty entry of `slot`.
pub open spec fn fresh_view(slot: RomBudgetSlot) -> PerBankEntryView {
    let cap = slot.usable_bytes - slot.reserved_slack;
    PerBankEntryView {
        slot: slot.id,
        class: slot.class,
        usable_bytes: slot.usable_bytes,
        reserved_slack: slot.reserved_slack,
        effective_cap_bytes: cap as i64,
        assigned_bytes: 0,
        residual_bytes: spec_residual_i32(cap),
        assigned_components: Seq::empty(),
        placement_caps: slot.placement_caps@,
    }
}

/// The empty entry of each ROM slot, keyed by slot id.
pub open spec fn slot_keyed_entries(slots: Seq<RomBudgetSlot>) -> Seq<(u64, PerBankEntryView)> {
    slots.map_values(|slot: RomBudgetSlot| (slot.id.0 as u64, fresh_view(slot)))
}

/// The empty entries of the ROM slots in order of slot id; slots of equal
/// id keep the order they are listed in.
pub open spec fn spec_initial_entries(slots: Seq<RomBudgetSlot>) -> Seq<PerBankEntryView> {
    sort_by_key(slot_keyed_entries(slots)).map_values(|keyed: (u64, PerBankEntryView)| keyed.1)
}

/// The empty entries of the budget's ROM slots, in order of slot id.
pub fn initial_entries(budget: &RuntimeChromeBudget) -> (entries: Vec<PerBankEntry>)
    ensures
        entry_views(entries@) == spec_initial_entries(budget.rom_slots@),
        entries@.len() == budget.rom_slots@.len(),
        forall|i: int| 0 <= i < entries@.len() ==> fresh_entry(#[trigger] entries@[i]),
        forall|i: int, j: int| 0 <= i <= j < entries@.len() ==> (#[trigger] entries@[i]).slot.0 <= (#[trigger] entries@[j]).slot.0,
        entries_of_slots(entries@, budget.rom_slots@),
{
    let mut keyed: Vec<(u64, PerBankEntry)> = Vec::new();
    let mut i: usize = 0;
    while i < budget.rom_slots.len()
        invariant
            i <= budget.rom_slots@.len(),
            keyed@.len() == i,
            forall|k: int| 0 <= k < keyed@.len() ==> fresh_entry((#[trigger] keyed@[k]).1) && keyed@[k].0 == keyed@[k].1.slot.0,
            forall|k: int| 0 <= k < keyed@.len() ==> entry_of_slot((#[trigger] keyed@[k]).1, budget.rom_slots@[k]),
        decreases budget.rom_slots@.len() - i,
    {
        let slot = &budget.rom_slots[i];
        let cap = rom_slot_effective_cap_bytes(slot);
        keyed.push((
            slot.id.0 as u64,
            PerBankEntry {
                slot: slot.id,
                class: slot.class,
                usable_bytes: slot.usable_bytes,
                reserved_slack: slot.reserved_slack,
                effective_cap_bytes: cap,
                assigned_bytes: 0,
                residual_bytes: residual_i32(cap),
                assigned_components: Vec::new(),
                placement_caps: copy_caps(&slot.placement_caps),
            },
        ));
        i = i + 1;
    }
    let ghost keyed_view = keyed@;
    let sorted = stable_sort_by_key(keyed);
    proof {
        assert forall|k: int| 0 <= k < sorted@.len() implies fresh_entry((#[trigger] sorted@[k]).1) && sorted@[k].0
            == sorted@[k].1.slot.0 by {
            assert(keyed_view.contains(sorted@[k]));
        }
    }
    let ghost sorted_view = sorted@;
    let entries = unkey_entries(sorted);
    proof {
        let to_view = |entry: PerBankEntry| entry@;
        let slots = budget.rom_slots@;
        assert forall|k: int| 0 <= k < slots.len() implies #[trigger] rekey(keyed_view, to_view)[k] == slot_keyed_entries(slots)[k] by {
            assert(entry_of_slot(keyed_view[k].1, slots[k]));
            assert(keyed_view[k].1.assigned_components@ =~= Seq::<BudgetComponentRef>::empty());
            assert(keyed_view[k].1@ == fresh_view(slots[k]));
        }
        assert(rekey(keyed_view, to_view) =~= slot_keyed_entries(slots));
        lemma_sort_by_key_rekey(keyed_view, to_view);
        assert(entry_views(entries@) =~= spec_initial_entries(slots)) by {
            assert forall|a: int| 0 <= a < entries@.len() implies #[trigger] entry_views(entries@)[a] == spec_initial_entries(slots)[a] by {
                assert(entries@[a] == sorted_view[a].1);
                assert(rekey(sorted_view, to_view)[a] == (sorted_view[a].0, sorted_view[a].1@));
            }
        }
        assert forall|a: int, b: int| 0 <= a <= b < entries@.len() implies (#[trigger] entries@[a]).slot.0
            <= (#[trigger] entries@[b]).slot.0 by {
            assert(sorted_view[a].0 <= sorted_view[b].0);
        }
        reveal(entries_of_slots);
        let es = entries@;
        let ss = budget.rom_slots@;
        assert forall|a: int| 0 <= a < es.len() implies #[trigger] entry_has_slot(es, ss, a) by {
            assert(keyed_view.contains(sorted_view[a]));
            let k = choose|k: int| 0 <= k < keyed_view.len() && keyed_view[k] == sorted_view[a];
            assert(entry_of_slot(keyed_view[k].1, ss[k]));
            assert(es[a] == keyed_view[k].1);
        }
        assert forall|k: int| 0 <= k < ss.len() implies #[trigger] slot_has_entry(es, ss, k) by {
            assert(entry_of_slot(keyed_view[k].1, ss[k]));
            assert(keyed_view.to_multiset().count(keyed_view[k]) > 0) by {
                assert(keyed_view.contains(keyed_view[k]));
            }
            assert(sorted_view.contains(keyed_view[k]));
            let a = choose|a: int| 0 <= a < sorted_view.len() && sorted_view[a] == keyed_view[k];
            assert(es[a] == sorted_view[a].1);
        }
    }
    entries
}

/// The placement profile is one expert per bank.
pub open spec fn strict_profile(profile: PlacementProfile) -> bool {
    StaticPlacementModel::spec_for_profile(profile) == StaticPlacementModel::StrictOnePerBank
}

fn append_failures(failures: &mut Vec<BudgetFailure>, more: Vec<BudgetFailure>)
    ensures
        final(failures)@ == old(failures)@ + more@,
{
    let mut more = more;
    failures.append(&mut more);
}

/// The row of an expert whose payload waits for a slot.
pub open spec fn waiting_row(expert: ExpertProjection, payload_bytes: u32) -> PerExpertEntry {
    PerExpertEntry {
        layer: expert.layer,
        expert: expert.expert,
        payload_bytes,
        assigned_slot: None,
        unassigned_because: Some(UnassignedBecause::NoEligibleSlots),
        placement_status: ExpertPlacementStatus::UnassignedNoEligibleSlots,
    }
}

/// The rows of the experts, their payloads waiting for a slot, and a
/// failure for each expert whose payload leaves 32 bits (which gets no row).
pub open spec fn spec_expert_rows(experts: Seq<ExpertProjection>, widths: ScaleFormatByteWidths) -> (
    Seq<PerExpertEntry>,
    Seq<ExpertPlacementPayload>,
    Seq<BudgetFailure>,
)
    decreases experts.len(),
{
    if experts.len() == 0 {
        (Seq::empty(), Seq::empty(), Seq::empty())
    } else {
        let earlier = spec_expert_rows(experts.drop_last(), widths);
        let expert = experts.last();
        let bytes = spec_expert_payload_bytes(expert, widths);
        if bytes > u32::MAX {
            (
                earlier.0,
                earlier.1,
                earlier.2.push(malformed_failure(BudgetField::ExpertPayloadBytes { index: (experts.len() - 1) as u64 })),
            )
        } else {
            (
                earlier.0.push(waiting_row(expert, bytes as u32)),
                earlier.1.push(
                    ExpertPlacementPayload {
                        payload_index: earlier.0.len() as usize,
                        layer: expert.layer,
                        expert: expert.expert,
                        payload_bytes: bytes as u32,
                    },
                ),
                earlier.2,
            )
        }
    }
}

/// The footprint of nothing.
pub open spec fn zero_footprint() -> CommonBankFootprintSection {
    CommonBankFootprintSection { kernel_bytes: 0, lut_bytes: 0, shared_dense_ffn_bytes: None, aggregate_bytes: 0 }
}

/// `result` is the budget projection of `view` against `budget` under
/// `profile`: see [`project_budget`].
pub open spec fn budget_projection_of(
    profile: PlacementProfile,
    budget: RuntimeChromeBudget,
    view: QuantGraphBudgetView,
    widths: ScaleFormatByteWidths,
    objective: CompileObjective,
    single_i16_only_locked: bool,
    result: (BudgetProjectionSection, Vec<BudgetFailure>),
) -> bool {
    let (section, failures) = result;
    let entries = section.per_bank_occupancy@;
    &&& entries.len() == budget.rom_slots@.len()
    &&& forall|i: int, j: int| 0 <= i <= j < entries.len() ==> (#[trigger] entries[i]).slot.0 <= (#[trigger] entries[j]).slot.0
    &&& strict_profile(profile) ==> forall|i: int|
        0 <= i < entries.len() && (#[trigger] entries[i]).class == BudgetSlotClass::ExpertBank
            ==> entries[i].assigned_components@.len() <= 1
    &&& forall|k: int|
        0 <= k < section.per_expert_payload@.len() && is_placed((#[trigger] section.per_expert_payload@[k]).placement_status)
            ==> exists|i: int|
            0 <= i < entries.len() && Some((#[trigger] entries[i]).slot) == section.per_expert_payload@[k].assigned_slot
                && expert_eligible(budget, entries[i], profile)
    &&& section.projected_wram == (ProjectedSize {
        peak_bytes: view.sequence_state.projected_wram_bytes,
        source: view.sequence_state.projected_wram_source,
    })
    &&& section.projected_sram == (ProjectedSize {
        peak_bytes: view.sequence_state.projected_sram_bytes,
        source: view.sequence_state.projected_sram_source,
    })
    &&& section.projected_hram == (ProjectedSize {
        peak_bytes: view.sequence_state.projected_hram_bytes,
        source: view.sequence_state.projected_hram_source,
    })
    &&& section.projected_bank_switches_per_token == spec_bank_switches(view)
    &&& section.projected_sram_page_switches_per_token == spec_page_switches(view.sequence_state)
    &&& section.routing_model == view.routing.model
    &&& section.accumulator_maxima@ == spec_accumulator_maxima(view.reduction_sites@, single_i16_only_locked).0
    &&& {
        let tail = spec_accumulator_maxima(view.reduction_sites@, single_i16_only_locked).1
            + spec_memory_peak_failures(section.projected_wram, section.projected_sram, section.projected_hram, budget)
            + spec_switch_count_failures(
            objective,
            section.projected_bank_switches_per_token,
            section.projected_sram_page_switches_per_token,
        );
        &&& tail.len() <= failures@.len()
        &&& failures@.subrange(failures@.len() - tail.len(), failures@.len() as int) == tail
    }
    &&& {
        let rows = spec_expert_rows(view.experts@, widths);
        let model = StaticPlacementModel::spec_for_profile(profile);
        let placed = spec_place_all(
            model,
            profile,
            budget,
            (spec_initial_entries(budget.rom_slots@), rows.0, Seq::empty()),
            rows.1,
            spec_placement_order(model, rows.1),
        );
        let footprint_failures = match spec_common_footprint(view) {
            Ok(_) => Seq::<BudgetFailure>::empty(),
            Err(failure) => seq![failure],
        };
        let common = spec_place_common_all(profile, budget, placed.0, view, section.common_bank_footprint.aggregate_bytes);
        &&& section.common_bank_footprint == match spec_common_footprint(view) {
            Ok(footprint) => footprint,
            Err(_) => zero_footprint(),
        }
        &&& section.per_expert_payload@ == placed.1
        &&& entry_views(entries) == common.0
        &&& failures@ == rows.2 + placed.2 + footprint_failures + common.1 + spec_accumulator_maxima(
            view.reduction_sites@,
            single_i16_only_locked,
        ).1 + spec_memory_peak_failures(section.projected_wram, section.projected_sram, section.projected_hram, budget)
            + spec_switch_count_failures(
            objective,
            section.projected_bank_switches_per_token,
            section.projected_sram_page_switches_per_token,
        )
    }
    &&& failures@.len() == 0 ==> {
        &&& section.per_expert_payload@.len() == view.experts@.len()
        &&& forall|k: int|
            0 <= k < section.per_expert_payload@.len() ==> (#[trigger] section.per_expert_payload@[k]).placement_status
                == ExpertPlacementStatus::Assigned
        &&& forall|i: int|
            0 <= i < entries.len() && (#[trigger] entries[i]).assigned_components@.len() > 0
                ==> entries[i].assigned_bytes <= entries[i].effective_cap_bytes
        &&& spec_memory_peak_failures(section.projected_wram, section.projected_sram, section.projected_hram, budget).len() == 0
        &&& spec_switch_count_failures(
            objective,
            section.projected_bank_switches_per_token,
            section.projected_sram_page_switches_per_token,
        ).len() == 0
        &&& section.accumulator_maxima@.len() == view.reduction_sites@.len()
        &&& forall|k: int|
            0 <= k < view.reduction_sites@.len() ==> (#[trigger] section.accumulator_maxima@[k]).projected_max_abs
                == spec_projected_max_abs(view.reduction_sites@[k]) && section.accumulator_maxima@[k].projected_max_abs
                <= i32::MAX && (single_i16_only_locked ==> section.accumulator_maxima@[k].projected_max_abs <= i16::MAX)
    }
}

/// Projects the budget of `view` against the runtime budget: each expert's
/// payload placed under `profile`, the shared components in the common bank,
/// the accumulator bounds, the memory peaks and the switch counts; with every
/// failure found, in that order. The slots start empty in order of slot id.
///
/// Under one expert per bank no expert bank holds two components. Each
/// placed expert sits in an expert bank that admits the profile. When nothing
/// failed, every expert is placed, every bank that holds anything stays
/// within its cap, every memory peak and switch count is within its cap, and
/// every accumulator fits an i32 (an i16 when single-i16 accumulation is
/// locked).
pub fn project_budget(
    profile: PlacementProfile,
    budget: &RuntimeChromeBudget,
    view: &QuantGraphBudgetView,
    widths: ScaleFormatByteWidths,
    objective: &CompileObjective,
    single_i16_only_locked: bool,
) -> (result: (BudgetProjectionSection, Vec<BudgetFailure>))
    requires
        forall|e: int| 0 <= e < view.experts@.len() ==> (#[trigger] view.experts@[e]).plan.well_formed(),
    ensures
        budget_projection_of(profile, *budget, *view, widths, *objective, single_i16_only_locked, result),
{
    let mut entries = initial_entries(budget);
    let ghost fresh = entries@;
    let mut experts: Vec<PerExpertEntry> = Vec::new();
    let mut payloads: Vec<ExpertPlacementPayload> = Vec::new();
    let mut failures: Vec<BudgetFailure> = Vec::new();
    let mut e: usize = 0;
    proof {
        assert(view.experts@.take(0) =~= Seq::<ExpertProjection>::empty());
    }
    while e < view.experts.len()
        invariant
            e <= view.experts@.len(),
            forall|q: int| 0 <= q < view.experts@.len() ==> (#[trigger] view.experts@[q]).plan.well_formed(),
            payloads@.len() == experts@.len(),
            forall|t: int| 0 <= t < payloads@.len() ==> (#[trigger] payloads@[t]).payload_index == t,
            forall|k: int| 0 <= k < experts@.len() ==> !is_placed((#[trigger] experts@[k]).placement_status),
            failures@.len() == 0 ==> experts@.len() == e,
            (experts@, payloads@, failures@) == spec_expert_rows(view.experts@.take(e as int), widths),
        decreases view.experts@.len() - e,
    {
        proof {
            assert(view.experts@.take(e + 1).drop_last() =~= view.experts@.take(e as int));
        }
        let expert = view.experts[e];
        let bytes = match expert_payload_bytes_with_widths(&expert, widths) {
            Ok(bytes) => bytes,
            Err(error) => {
                proof {
                    assert(false);
                }
                0
            },
        };
        match u32_byte_budget(bytes) {
            Err(_) => {
                failures.push(malformed(BudgetField::ExpertPayloadBytes { index: e as u64 }));
            },
            Ok(payload_bytes) => {
                let payload_index = experts.len();
                experts.push(PerExpertEntry {
                    layer: expert.layer,
                    expert: expert.expert,
                    payload_bytes,
                    assigned_slot: None,
                    unassigned_because: Some(UnassignedBecause::NoEligibleSlots),
                    placement_status: ExpertPlacementStatus::UnassignedNoEligibleSlots,
                });
                payloads.push(ExpertPlacementPayload {
                    payload_index,
                    layer: expert.layer,
                    expert: expert.expert,
                    payload_bytes,
                });
            },
        }
        e = e + 1;
    }
    let ghost entries_before_experts = entries@;
    let ghost row_failures = failures@;
    proof {
        assert(view.experts@.take(e as int) =~= view.experts@);
    }
    let expert_failures = place_experts_by_static_model(profile, budget, &mut entries, &mut experts, &payloads);
    let ghost expert_failures_empty = expert_failures@.len() == 0;
    let ghost placement_failures = expert_failures@;
    append_failures(&mut failures, expert_failures);
    let ghost before_footprint = failures@;
    let footprint = match common_bank_footprint(view) {
        Ok(footprint) => footprint,
        Err(failure) => {
            failures.push(failure);
            CommonBankFootprintSection { kernel_bytes: 0, lut_bytes: 0, shared_dense_ffn_bytes: None, aggregate_bytes: 0 }
        },
    };
    let ghost entries_before_common = entries@;
    let ghost after_footprint = failures@;
    let common_failures = place_common_bank_components(profile, budget, &mut entries, view, footprint.aggregate_bytes);
    let ghost common_empty = common_failures@.len() == 0;
    let ghost common_tail = common_failures@;
    append_failures(&mut failures, common_failures);
    let (bounds, accumulator_failures) = accumulator_maxima(&view.reduction_sites, single_i16_only_locked);
    let ghost accumulators_empty = accumulator_failures@.len() == 0;
    let ghost before_tail = failures@;
    let ghost accumulator_tail = accumulator_failures@;
    append_failures(&mut failures, accumulator_failures);
    let projected_wram = ProjectedSize {
        peak_bytes: view.sequence_state.projected_wram_bytes,
        source: view.sequence_state.projected_wram_source,
    };
    let projected_sram = ProjectedSize {
        peak_bytes: view.sequence_state.projected_sram_bytes,
        source: view.sequence_state.projected_sram_source,
    };
    let projected_hram = ProjectedSize {
        peak_bytes: view.sequence_state.projected_hram_bytes,
        source: view.sequence_state.projected_hram_source,
    };
    let memory_failures = memory_peak_failures(&projected_wram, &projected_sram, &projected_hram, budget);
    let ghost memory_tail = memory_failures@;
    append_failures(&mut failures, memory_failures);
    let bank_switches = ProjectedSwitchCount {
        upper_bound: view.routing.projected_bank_switches_per_token,
        expected_q16_16: view.routing.expected_bank_switches_q16_16,
        decision_value: view.routing.projected_bank_switches_per_token,
        source: SwitchProjectionSource::ConservativeStaticUpperBound,
    };
    let page_switches = ProjectedSwitchCount {
        upper_bound: view.sequence_state.projected_sram_page_switches_per_token,
        expected_q16_16: None,
        decision_value: view.sequence_state.projected_sram_page_switches_per_token,
        source: SwitchProjectionSource::ConservativeStaticUpperBound,
    };
    let switch_failures = switch_count_failures(objective, &bank_switches, &page_switches);
    let ghost switch_tail = switch_failures@;
    append_failures(&mut failures, switch_failures);
    proof {
        let tail = accumulator_tail + memory_tail + switch_tail;
        assert(failures@ =~= before_tail + tail);
        let footprint_failures = match spec_common_footprint(*view) {
            Ok(_) => Seq::<BudgetFailure>::empty(),
            Err(failure) => seq![failure],
        };
        assert(after_footprint =~= row_failures + placement_failures + footprint_failures);
        assert(failures@ =~= row_failures + placement_failures + footprint_failures + common_tail + accumulator_tail + memory_tail
            + switch_tail);
        assert(failures@.subrange(failures@.len() - tail.len(), failures@.len() as int) =~= tail);
        assert forall|i: int|
            0 <= i < entries@.len() && (#[trigger] entries@[i]).class == BudgetSlotClass::ExpertBank && strict_profile(profile)
                implies entries@[i].assigned_components@.len() <= 1 by {
            assert(same_entry(entries_before_common[i], entries@[i]));
            assert(fresh_entry(fresh[i]));
        }
        assert forall|k: int|
            0 <= k < experts@.len() && is_placed((#[trigger] experts@[k]).placement_status) implies exists|i: int|
                0 <= i < entries@.len() && Some((#[trigger] entries@[i]).slot) == experts@[k].assigned_slot
                    && expert_eligible(*budget, entries@[i], profile) by {
            let i = choose|i: int|
                0 <= i < entries_before_common.len() && Some((#[trigger] entries_before_common[i]).slot)
                    == experts@[k].assigned_slot && expert_eligible(*budget, entries_before_common[i], profile);
            assert(same_slot_shape(entries_before_common[i], entries@[i]));
        }
        if failures@.len() == 0 {
            assert forall|i: int|
                0 <= i < entries@.len() && (#[trigger] entries@[i]).assigned_components@.len() > 0 implies entries@[i].assigned_bytes
                    <= entries@[i].effective_cap_bytes by {
                assert(fresh_entry(fresh[i]));
                if same_entry(entries_before_common[i], entries@[i]) {
                    if same_entry(fresh[i], entries_before_common[i]) {
                    } else {
                    }
                }
            }
        }
    }
    let section = BudgetProjectionSection {
        per_expert_payload: experts,
        per_bank_occupancy: entries,
        common_bank_footprint: footprint,
        accumulator_maxima: bounds,
        projected_wram,
        projected_sram,
        projected_hram,
        projected_bank_switches_per_token: bank_switches,
        projected_sram_page_switches_per_token: page_switches,
        routing_model: RoutingModelSection { kind: view.routing.model.kind.clone() },
    };
    (section, failures)
}

/// The same projections are the same: the slot entries and expert rows as
/// values, the bounds, the footprint, the sizes, the switch counts, the
/// routing model and the failures.
pub open spec fn same_projection(
    a: (BudgetProjectionSection, Vec<BudgetFailure>),
    b: (BudgetProjectionSection, Vec<BudgetFailure>),
) -> bool {
    &&& entry_views(a.0.per_bank_occupancy@) == entry_views(b.0.per_bank_occupancy@)
    &&& a.0.per_expert_payload@ == b.0.per_expert_payload@
    &&& a.0.common_bank_footprint == b.0.common_bank_footprint
    &&& a.0.accumulator_maxima@ == b.0.accumulator_maxima@
    &&& a.0.projected_wram == b.0.projected_wram
    &&& a.0.projected_sram == b.0.projected_sram
    &&& a.0.projected_hram == b.0.projected_hram
    &&& a.0.projected_bank_switches_per_token == b.0.projected_bank_switches_per_token
    &&& a.0.projected_sram_page_switches_per_token == b.0.projected_sram_page_switches_per_token
    &&& a.0.routing_model == b.0.routing_model
    &&& a.1@ == b.1@
}

/// The budget projection is a function of its inputs: projecting the same
/// view against the same budget twice gives the same projection.
pub proof fn lemma_budget_projection_deterministic(
    profile: PlacementProfile,
    budget: RuntimeChromeBudget,
    view: QuantGraphBudgetView,
    widths: ScaleFormatByteWidths,
    objective: CompileObjective,
    single_i16_only_locked: bool,
    first: (BudgetProjectionSection, Vec<BudgetFailure>),
    second: (BudgetProjectionSection, Vec<BudgetFailure>),
)
    requires
        budget_projection_of(profile, budget, view, widths, objective, single_i16_only_locked, first),
        budget_projection_of(profile, budget, view, widths, objective, single_i16_only_locked, second),
    ensures
        same_projection(first, second),
{
}

// ------------------------------------------------------------ the stage

/// The projections of a budget that was not evaluated: its ROM slots, empty
/// and in slot order, and nothing else.
pub open spec fn empty_projections(section: BudgetProjectionSection, slots: Seq<RomBudgetSlot>) -> bool {
    let entries = section.per_bank_occupancy@;
    &&& entries.len() == slots.len()
    &&& forall|i: int| 0 <= i < entries.len() ==> fresh_entry(#[trigger] entries[i])
    &&& forall|i: int, j: int| 0 <= i <= j < entries.len() ==> (#[trigger] entries[i]).slot.0 <= (#[trigger] entries[j]).slot.0
    &&& entries_of_slots(entries, slots)
    &&& nothing_projected(section)
}

/// Nothing of the graph is projected into the section.
pub open spec fn nothing_projected(section: BudgetProjectionSection) -> bool {
    &&& section.per_expert_payload@.len() == 0
    &&& section.accumulator_maxima@.len() == 0
    &&& section.common_bank_footprint == (CommonBankFootprintSection {
        kernel_bytes: 0,
        lut_bytes: 0,
        shared_dense_ffn_bytes: None,
        aggregate_bytes: 0,
    })
    &&& section.projected_wram == (ProjectedSize { peak_bytes: 0, source: ProjectedSizeSource::StaticGraphProjection })
    &&& section.projected_sram == (ProjectedSize { peak_bytes: 0, source: ProjectedSizeSource::StaticGraphProjection })
    &&& section.projected_hram == (ProjectedSize { peak_bytes: 0, source: ProjectedSizeSource::StaticGraphProjection })
    &&& section.projected_bank_switches_per_token == (ProjectedSwitchCount {
        upper_bound: 0,
        expected_q16_16: None,
        decision_value: 0,
        source: SwitchProjectionSource::ConservativeStaticUpperBound,
    })
    &&& section.projected_sram_page_switches_per_token == (ProjectedSwitchCount {
        upper_bound: 0,
        expected_q16_16: None,
        decision_value: 0,
        source: SwitchProjectionSource::ConservativeStaticUpperBound,
    })
}

fn empty_section(entries: Vec<PerBankEntry>, routing_kind: String) -> (section: BudgetProjectionSection)
    ensures
        section.per_bank_occupancy@ == entries@,
        section.routing_model.kind@ == routing_kind@,
        nothing_projected(section),
{
    let zero_size = ProjectedSize { peak_bytes: 0, source: ProjectedSizeSource::StaticGraphProjection };
    let zero_switches = ProjectedSwitchCount {
        upper_bound: 0,
        expected_q16_16: None,
        decision_value: 0,
        source: SwitchProjectionSource::ConservativeStaticUpperBound,
    };
    BudgetProjectionSection {
        per_expert_payload: Vec::new(),
        per_bank_occupancy: entries,
        common_bank_footprint: CommonBankFootprintSection {
            kernel_bytes: 0,
            lut_bytes: 0,
            shared_dense_ffn_bytes: None,
            aggregate_bytes: 0,
        },
        accumulator_maxima: Vec::new(),
        projected_wram: zero_size,
        projected_sram: zero_size,
        projected_hram: zero_size,
        projected_bank_switches_per_token: zero_switches,
        projected_sram_page_switches_per_token: zero_switches,
        routing_model: RoutingModelSection { kind: routing_kind },
    }
}

/// The projections reported when the budget view is refused: the runtime
/// budget's slots, empty, and nothing projected.
pub fn empty_projections_for_runtime_budget(budget: &RuntimeChromeBudget) -> (section: BudgetProjectionSection)
    ensures
        empty_projections(section, budget.rom_slots@),
        section.routing_model.kind@.len() == 0,
{
    let entries = initial_entries(budget);
    empty_section(entries, String::new())
}

/// Why a budget view is refused before projection, if it is: the quantized
/// graph's and the view's semantic-core hashes must be the artifact's, and the
/// view must be well formed.
pub open spec fn budget_view_refusal(
    artifact_core_hash: Hash256,
    quant_graph_core_hash: Hash256,
    view: QuantGraphBudgetView,
) -> Option<BudgetFailure> {
    if quant_graph_core_hash != artifact_core_hash {
        Some(malformed_failure(BudgetField::QuantGraphSemanticCoreHash))
    } else if view.semantic_core_hash != artifact_core_hash {
        Some(malformed_failure(BudgetField::BudgetViewSemanticCoreHash))
    } else {
        match view_semantics_fault(view) {
            Some(field) => Some(malformed_failure(field)),
            None => None,
        }
    }
}

pub fn validate_budget_view(
    artifact_core_hash: Hash256,
    quant_graph_core_hash: Hash256,
    view: &QuantGraphBudgetView,
) -> (result: Result<(), BudgetFailure>)
    ensures
        match budget_view_refusal(artifact_core_hash, quant_graph_core_hash, *view) {
            Some(failure) => result == Err::<(), BudgetFailure>(failure),
            None => result is Ok,
        },
{
    if quant_graph_core_hash != artifact_core_hash {
        return Err(malformed(BudgetField::QuantGraphSemanticCoreHash));
    }
    if view.semantic_core_hash != artifact_core_hash {
        return Err(malformed(BudgetField::BudgetViewSemanticCoreHash));
    }
    match view.validate_semantics() {
        Ok(()) => Ok(()),
        Err(error) => Err(error.into_failure()),
    }
}

/// Whether the graph fits its static budget.
#[derive(Clone, Copy, Debug, PartialEq, Eq, Structural)]
pub enum StaticBudgetOutcome {
    Passed,
    Failed,
}

/// How a static fit is to be read: fitting passes the necessary static
/// checks only; it does not show that the program runs.
#[derive(Clone, Copy, Debug, PartialEq, Eq, Structural)]
pub enum StaticFitInterpretation {
    PassesNecessaryStaticChecks,
    FailsNecessaryStaticChecks,
}

pub open spec fn spec_fit_interpretation(fits: bool) -> StaticFitInterpretation {
    if fits {
        StaticFitInterpretation::PassesNecessaryStaticChecks
    } else {
        StaticFitInterpretation::FailsNecessaryStaticChecks
    }
}

/// The reading of a static fit verdict.
pub fn static_fit_interpretation_for_fits(fits: bool) -> (interpretation: StaticFitInterpretation)
    ensures
        interpretation == spec_fit_interpretation(fits),
{
    if fits {
        StaticFitInterpretation::PassesNecessaryStaticChecks
    } else {
        StaticFitInterpretation::FailsNecessaryStaticChecks
    }
}

/// What the static budget stage decides: the outcome, whether the graph
/// fits and how that reads, the placement model, the failures, the
/// projections, and the reduction sites the report records.
#[derive(Clone, Debug, PartialEq, Eq)]
pub struct StaticBudgetDecision {
    pub outcome: StaticBudgetOutcome,
    pub fits: bool,
    pub interpretation: StaticFitInterpretation,
    pub placement_model: StaticPlacementModel,
    pub failures: Vec<BudgetFailure>,
    pub projections: BudgetProjectionSection,
    pub reduction_site_facts: Vec<ReductionSiteProjection>,
}

/// The decision's verdict fields agree with its failures: it fits, and
/// passes, exactly when nothing failed; the placement model is the profile's.
pub open spec fn decision_verdict_consistent(profile: PlacementProfile, decision: StaticBudgetDecision) -> bool {
    &&& decision.fits == (decision.failures@.len() == 0)
    &&& (decision.outcome == StaticBudgetOutcome::Passed) == decision.fits
    &&& decision.interpretation == spec_fit_interpretation(decision.fits)
    &&& decision.placement_model == StaticPlacementModel::spec_for_profile(profile)
}

fn decision_from(
    profile: PlacementProfile,
    failures: Vec<BudgetFailure>,
    projections: BudgetProjectionSection,
    reduction_site_facts: Vec<ReductionSiteProjection>,
) -> (decision: StaticBudgetDecision)
    ensures
        decision_verdict_consistent(profile, decision),
        decision.failures == failures,
        decision.projections == projections,
        decision.reduction_site_facts == reduction_site_facts,
{
    let fits = failures.len() == 0;
    let outcome = if fits {
        StaticBudgetOutcome::Passed
    } else {
        StaticBudgetOutcome::Failed
    };
    StaticBudgetDecision {
        outcome,
        fits,
        interpretation: static_fit_interpretation_for_fits(fits),
        placement_model: placement_model_for_profile(profile),
        failures,
        projections,
        reduction_site_facts,
    }
}

/// The decision without a runtime budget: refused, with nothing projected.
fn missing_runtime_budget(profile: PlacementProfile) -> (decision: StaticBudgetDecision)
    ensures
        decision_verdict_consistent(profile, decision),
        decision.failures@ == seq![BudgetFailure::MissingRuntimeChromeBudget],
        empty_projections(decision.projections, Seq::empty()),
        decision.projections.routing_model.kind@ == "not_evaluated_missing_runtime_chrome_budget"@,
        decision.reduction_site_facts@.len() == 0,
{
    let entries: Vec<PerBankEntry> = Vec::new();
    let projections = empty_section(entries, "not_evaluated_missing_runtime_chrome_budget".to_owned());
    proof {
        reveal(entries_of_slots);
    }
    let mut failures: Vec<BudgetFailure> = Vec::new();
    failures.push(BudgetFailure::MissingRuntimeChromeBudget);
    decision_from(profile, failures, projections, Vec::new())
}

/// What the static budget stage decides with runtime budget `b`: refused on
/// a view error or a refused view, with empty projections; otherwise the
/// projection of the view, with its failures.
pub open spec fn evaluated_budget_decision(
    profile: PlacementProfile,
    b: RuntimeChromeBudget,
    view: Result<QuantGraphBudgetView, QuantGraphBudgetViewError>,
    artifact_core_hash: Hash256,
    quant_graph_core_hash: Hash256,
    widths: ScaleFormatByteWidths,
    objective: CompileObjective,
    single_i16_only_locked: bool,
    decision: StaticBudgetDecision,
) -> bool {
    match view {
        Err(error) => {
            &&& error matches QuantGraphBudgetViewError::Malformed { field }
                && decision.failures@ == seq![malformed_failure(field)]
            &&& empty_projections(decision.projections, b.rom_slots@)
            &&& decision.reduction_site_facts@.len() == 0
        },
        Ok(v) => match budget_view_refusal(artifact_core_hash, quant_graph_core_hash, v) {
            Some(failure) => {
                &&& decision.failures@ == seq![failure]
                &&& empty_projections(decision.projections, b.rom_slots@)
                &&& decision.reduction_site_facts@ == v.reduction_sites@
            },
            None => {
                &&& budget_projection_of(
                    profile,
                    b,
                    v,
                    widths,
                    objective,
                    single_i16_only_locked,
                    (decision.projections, decision.failures),
                )
                &&& decision.reduction_site_facts@ == v.reduction_sites@
                &&& decision.projections.routing_model == v.routing.model
            },
        },
    }
}

/// The static budget stage over the runtime budget, if there is one, and the
/// budget view that the quantized graph gave, or its error: refused without a
/// runtime budget, refused on a view error or a refused view, else the
/// projection, which passes when it records no failure.
pub fn decide_static_budget(
    profile: PlacementProfile,
    budget: Option<&RuntimeChromeBudget>,
    view: Result<QuantGraphBudgetView, QuantGraphBudgetViewError>,
    artifact_core_hash: Hash256,
    quant_graph_core_hash: Hash256,
    widths: ScaleFormatByteWidths,
    objective: &CompileObjective,
    single_i16_only_locked: bool,
) -> (decision: StaticBudgetDecision)
    requires
        view matches Ok(v) ==> forall|e: int| 0 <= e < v.experts@.len() ==> (#[trigger] v.experts@[e]).plan.well_formed(),
    ensures
        decision_verdict_consistent(profile, decision),
        budget is None ==> {
            &&& decision.failures@ == seq![BudgetFailure::MissingRuntimeChromeBudget]
            &&& empty_projections(decision.projections, Seq::empty())
            &&& decision.projections.routing_model.kind@ == "not_evaluated_missing_runtime_chrome_budget"@
            &&& decision.reduction_site_facts@.len() == 0
        },
        budget matches Some(b) ==> evaluated_budget_decision(
            profile,
            *b,
            view,
            artifact_core_hash,
            quant_graph_core_hash,
            widths,
            *objective,
            single_i16_only_locked,
            decision,
        ),
{
    let budget = match budget {
        None => {
            return missing_runtime_budget(profile);
        },
        Some(budget) => budget,
    };
    let view = match view {
        Err(error) => {
            let mut failures: Vec<BudgetFailure> = Vec::new();
            failures.push(error.into_failure());
            let projections = empty_projections_for_runtime_budget(budget);
            return decision_from(profile, failures, projections, Vec::new());
        },
        Ok(view) => view,
    };
    if let Err(failure) = validate_budget_view(artifact_core_hash, quant_graph_core_hash, &view) {
        let mut failures: Vec<BudgetFailure> = Vec::new();
        failures.push(failure);
        let projections = empty_projections_for_runtime_budget(budget);
        return decision_from(profile, failures, projections, view.reduction_sites);
    }
    let result = project_budget(profile, budget, &view, widths, objective, single_i16_only_locked);
    let (projections, failures) = result;
    decision_from(profile, failures, projections, view.reduction_sites)
}


/// A quantized graph as the static budget stage reads it: its hashes and
/// its budget view. The graph's owner implements it; the view it hands out
/// never has a zero scale-group size, as the graph's plans cannot hold one.
pub trait QuantGraphBudgetSource {
    fn quant_graph_hash(&self) -> Hash256;

    fn semantic_core_hash(&self) -> Hash256;

    fn to_budget_view(&self) -> (view: Result<QuantGraphBudgetView, QuantGraphBudgetViewError>)
        ensures
            view matches Ok(v) ==> forall|e: int|
                0 <= e < v.experts@.len() ==> (#[trigger] v.experts@[e]).plan.well_formed(),
    ;
}

/// The static budget stage over a quantized graph: without a runtime budget
/// it refuses at once and never asks the graph for its view; otherwise it
/// decides over the view the graph hands out, as `decide_static_budget`
/// states for every view.
pub fn run_static_budget<Q: QuantGraphBudgetSource>(
    profile: PlacementProfile,
    budget: Option<&RuntimeChromeBudget>,
    quant_graph: &Q,
    artifact_core_hash: Hash256,
    widths: ScaleFormatByteWidths,
    objective: &CompileObjective,
    single_i16_only_locked: bool,
) -> (decision: StaticBudgetDecision)
    ensures
        decision_verdict_consistent(profile, decision),
        budget is None ==> {
            &&& decision.failures@ == seq![BudgetFailure::MissingRuntimeChromeBudget]
            &&& empty_projections(decision.projections, Seq::empty())
            &&& decision.projections.routing_model.kind@ == "not_evaluated_missing_runtime_chrome_budget"@
            &&& decision.reduction_site_facts@.len() == 0
        },
        budget matches Some(b) ==> exists|view: Result<QuantGraphBudgetView, QuantGraphBudgetViewError>, h: Hash256|
            #![trigger call_ensures(Q::to_budget_view, (quant_graph,), view), call_ensures(Q::semantic_core_hash, (quant_graph,), h)]
            call_ensures(Q::to_budget_view, (quant_graph,), view) && call_ensures(
                Q::semantic_core_hash,
                (quant_graph,),
                h,
            ) && evaluated_budget_decision(
                profile,
                *b,
                view,
                artifact_core_hash,
                h,
                widths,
                *objective,
                single_i16_only_locked,
                decision,
            ),
{
    match budget {
        None => missing_runtime_budget(profile),
        Some(b) => {
            let view = quant_graph.to_budget_view();
            let semantic_core_hash = quant_graph.semantic_core_hash();
            let ghost handed = view;
            let decision = decide_static_budget(
                profile,
                Some(b),
                view,
                artifact_core_hash,
                semantic_core_hash,
                widths,
                objective,
                single_i16_only_locked,
            );
            assert(call_ensures(Q::to_budget_view, (quant_graph,), handed) && call_ensures(
                Q::semantic_core_hash,
                (quant_graph,),
                semantic_core_hash,
            ));
            decision
        },
    }
}

} // verus!
